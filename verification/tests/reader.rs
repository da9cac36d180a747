use sexp_eval::objects::{cons, make_bool, make_fixnum, make_symbol, nil, ObjP};
use sexp_eval::reader::{read, wrap_quote, ReadError, SexpParser};

fn list_of(items: &[ObjP]) -> ObjP {
    let mut list = nil();
    for item in items.iter().rev() {
        list = cons(item, &list);
    }
    list
}

#[test]
fn reads_integers_with_and_without_sign() {
    assert_eq!(read("42"), Ok(make_fixnum(42)));
    assert_eq!(read("-42"), Ok(make_fixnum(-42)));
    assert_eq!(read("+42"), Ok(make_fixnum(42)));
    assert_eq!(read("007"), Ok(make_fixnum(7)));
    assert_eq!(read("0"), Ok(make_fixnum(0)));
    assert_eq!(read("-0"), Ok(make_fixnum(0)));
}

#[test]
fn reads_integers_at_the_limits() {
    assert_eq!(read("9223372036854775807"), Ok(make_fixnum(i64::MAX)));
    assert_eq!(read("-9223372036854775808"), Ok(make_fixnum(i64::MIN)));
    assert_eq!(read("+9223372036854775807"), Ok(make_fixnum(i64::MAX)));
}

#[test]
fn integer_out_of_range_is_a_number_format_error() {
    assert_eq!(read("9223372036854775808"), Err(ReadError::Fixnum(0)));
    assert_eq!(read("-9223372036854775809"), Err(ReadError::Fixnum(0)));
    assert_eq!(read("99999999999999999999999999"), Err(ReadError::Fixnum(0)));
    assert_eq!(read("  (1 99999999999999999999)"), Err(ReadError::Fixnum(5)));
    assert_eq!(
        read("(99999999999999999999 88888888888888888888)"),
        Err(ReadError::Fixnum(1))
    );
}

#[test]
fn malformed_text_wins_over_an_integer_out_of_range() {
    assert_eq!(read("(99999999999999999999"), Err(ReadError::Parse(21)));
    assert_eq!(read("(99999999999999999999 . )"), Err(ReadError::Parse(24)));
}

#[test]
fn reads_booleans() {
    assert_eq!(read("#t"), Ok(make_bool(true)));
    assert_eq!(read("#f"), Ok(make_bool(false)));
}

#[test]
fn reads_symbols() {
    assert_eq!(read("foo"), Ok(make_symbol("foo")));
    assert_eq!(read("eq?"), Ok(make_symbol("eq?")));
    assert_eq!(read("lambda-list"), Ok(make_symbol("lambda-list")));
    assert_eq!(read("-"), Ok(make_symbol("-")));
    assert_eq!(read("+"), Ok(make_symbol("+")));
    assert_eq!(read("1abc"), Ok(make_symbol("1abc")));
    assert_eq!(read("-12x"), Ok(make_symbol("-12x")));
    assert_eq!(read("#true"), Ok(make_symbol("#true")));
    assert_eq!(read("#"), Ok(make_symbol("#")));
    assert_eq!(read("h\u{e9}llo"), Ok(make_symbol("h\u{e9}llo")));
}

#[test]
fn reads_proper_lists() {
    assert_eq!(read("()"), Ok(nil()));
    assert_eq!(read("( )"), Ok(nil()));
    assert_eq!(read("(a)"), Ok(list_of(&[make_symbol("a")])));
    assert_eq!(
        read("(1 2 3)"),
        Ok(list_of(&[make_fixnum(1), make_fixnum(2), make_fixnum(3)]))
    );
    assert_eq!(
        read("(a (b #t) ())"),
        Ok(list_of(&[
            make_symbol("a"),
            list_of(&[make_symbol("b"), make_bool(true)]),
            nil()
        ]))
    );
}

#[test]
fn reads_dotted_lists() {
    assert_eq!(read("(1 . 2)"), Ok(cons(&make_fixnum(1), &make_fixnum(2))));
    assert_eq!(
        read("(1 2 . x)"),
        Ok(cons(&make_fixnum(1), &cons(&make_fixnum(2), &make_symbol("x"))))
    );
    assert_eq!(read("(1.2)"), Ok(cons(&make_fixnum(1), &make_fixnum(2))));
    assert_eq!(
        read("(a . (b . ()))"),
        Ok(list_of(&[make_symbol("a"), make_symbol("b")]))
    );
}

#[test]
fn quote_shorthand_reads_as_a_list_of_two() {
    let expected = list_of(&[make_symbol("quote"), make_symbol("x")]);
    assert_eq!(read("'x"), Ok(expected.clone()));
    assert_eq!(read("(quote x)"), Ok(expected));
    assert_eq!(
        read("''x"),
        Ok(list_of(&[
            make_symbol("quote"),
            list_of(&[make_symbol("quote"), make_symbol("x")])
        ]))
    );
    assert_eq!(
        read("'(1 2)"),
        Ok(list_of(&[
            make_symbol("quote"),
            list_of(&[make_fixnum(1), make_fixnum(2)])
        ]))
    );
}

#[test]
fn spaces_around_the_expression_are_ignored() {
    assert_eq!(read("  42\n"), Ok(make_fixnum(42)));
    assert_eq!(
        read("\t( a\r\n  b )  "),
        Ok(list_of(&[make_symbol("a"), make_symbol("b")]))
    );
}

#[test]
fn malformed_text_is_a_parse_error_at_its_offset() {
    assert_eq!(read(""), Err(ReadError::Parse(0)));
    assert_eq!(read("   "), Err(ReadError::Parse(3)));
    assert_eq!(read(")"), Err(ReadError::Parse(0)));
    assert_eq!(read("."), Err(ReadError::Parse(0)));
    assert_eq!(read("(1 2"), Err(ReadError::Parse(4)));
    assert_eq!(read("( . 1)"), Err(ReadError::Parse(2)));
    assert_eq!(read("(1 . )"), Err(ReadError::Parse(5)));
    assert_eq!(read("(1 . 2 3)"), Err(ReadError::Parse(7)));
    assert_eq!(read("(1 . 2 . 3)"), Err(ReadError::Parse(7)));
    assert_eq!(read("'"), Err(ReadError::Parse(1)));
    assert_eq!(read("')"), Err(ReadError::Parse(1)));
}

#[test]
fn only_one_expression_is_read() {
    assert_eq!(read("1 2"), Err(ReadError::Parse(2)));
    assert_eq!(read("(a) b"), Err(ReadError::Parse(4)));
    assert_eq!(read("a.b"), Err(ReadError::Parse(1)));
    assert_eq!(read("(a))"), Err(ReadError::Parse(3)));
}

#[test]
fn offsets_count_characters_not_bytes() {
    assert_eq!(read("(\u{e9}\u{e9}"), Err(ReadError::Parse(3)));
}

#[test]
fn parser_reads_what_read_reads() {
    let parser = SexpParser::new("(a . b)");
    assert_eq!(parser.parse(), read("(a . b)"));
    assert_eq!(parser.parse(), Ok(cons(&make_symbol("a"), &make_symbol("b"))));
}

#[test]
fn text_of_a_value_reads_back_as_the_value() {
    let values = [
        nil(),
        make_fixnum(0),
        make_fixnum(-17),
        make_fixnum(i64::MIN),
        make_fixnum(i64::MAX),
        make_bool(true),
        make_bool(false),
        make_symbol("x"),
        make_symbol("-"),
        cons(&make_fixnum(1), &make_fixnum(2)),
        list_of(&[make_symbol("quote"), make_symbol("x")]),
        list_of(&[
            list_of(&[make_fixnum(1), nil()]),
            cons(&make_symbol("a"), &make_bool(false)),
            nil(),
        ]),
    ];
    for value in values.iter() {
        assert_eq!(read(&value.render()), Ok(value.clone()));
    }
}

#[test]
fn unicode_white_space_separates() {
    assert_eq!(
        read("(a\u{a0}b\u{2003}c)"),
        Ok(list_of(&[make_symbol("a"), make_symbol("b"), make_symbol("c")]))
    );
    assert_eq!(read("\u{3000}7\u{b}"), Ok(make_fixnum(7)));
}

#[test]
fn brackets_and_quotes_need_no_spaces_around_them() {
    assert_eq!(
        read("(a(b)c)"),
        Ok(list_of(&[
            make_symbol("a"),
            list_of(&[make_symbol("b")]),
            make_symbol("c")
        ]))
    );
    assert_eq!(
        read("(a'b)"),
        Ok(list_of(&[
            make_symbol("a"),
            list_of(&[make_symbol("quote"), make_symbol("b")])
        ]))
    );
    assert_eq!(read("' x"), Ok(list_of(&[make_symbol("quote"), make_symbol("x")])));
}

#[test]
fn wrap_quote_makes_a_list_of_two() {
    assert_eq!(
        wrap_quote(make_fixnum(1)),
        list_of(&[make_symbol("quote"), make_fixnum(1)])
    );
    assert_eq!(wrap_quote(nil()).render(), "(quote ())");
}

#[test]
fn long_and_deep_texts_are_read() {
    let mut text = String::from("(");
    let mut items = Vec::new();
    for i in 0..1000 {
        text.push_str(&i.to_string());
        text.push(' ');
        items.push(make_fixnum(i));
    }
    text.push(')');
    assert_eq!(read(&text), Ok(list_of(&items)));

    let mut nested = nil();
    let mut text = String::from("()");
    for _ in 0..200 {
        nested = cons(&nested, &nil());
        text = format!("({})", text);
    }
    assert_eq!(read(&text), Ok(nested.clone()));
    assert_eq!(nested.render(), text);
}

#[test]
fn sign_without_digits_and_digits_with_letters_are_symbols() {
    assert_eq!(read("(+ - +a 1+ --1)").unwrap().render(), "(+ - +a 1+ --1)");
    assert_eq!(
        read("--1"),
        Ok(make_symbol("--1"))
    );
    assert_eq!(read("+-1"), Ok(make_symbol("+-1")));
}

#[test]
fn text_that_reads_as_a_value_settles_after_one_round() {
    for text in ["  ( a   b . ( c ) ) ", "'(+7 . -0)", "''()", "(#t #f . #t)", "( ( ) )"] {
        let value = read(text).unwrap();
        let written = value.render();
        assert_eq!(read(&written), Ok(value.clone()));
        assert_eq!(read(&written).unwrap().render(), written);
    }
    assert_eq!(read("  ( a   b . ( c ) ) ").unwrap().render(), "(a b c)");
    assert_eq!(read("'(+7 . -0)").unwrap().render(), "(quote (7 . 0))");
}
