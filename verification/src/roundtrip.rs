//! Reading the text of a value gives the value back.

use crate::objects::{lemma_parts_are_smaller, Sexp};
use crate::reader::{
    all_digits, atom_end, atom_spec, Datum, digits_value, integer_value, is_digit, is_integer_form,
    is_space, is_symbol_char, lemma_atom_end_bounds, lemma_skip_spaces_bounds, parse_expr,
    parse_list, read_spec, ReadError, sign_len, skip_spaces,
};
use crate::render::{decimal, digit_char, digits};
use vstd::prelude::*;

verus! {

/// A name that reads as a symbol: not empty, made of the characters of
/// atoms, and neither of the form of an integer nor `#t` or `#f`.
pub open spec fn is_symbol_name(name: Seq<char>) -> bool {
    &&& name.len() > 0
    &&& forall|i: int| 0 <= i < name.len() ==> is_symbol_char(#[trigger] name[i])
    &&& !is_integer_form(name)
    &&& name != "#t"@
    &&& name != "#f"@
}

impl Sexp {
    /// A value that can be written down: it holds no combiner, and every
    /// symbol in it has a name that reads as a symbol.
    pub open spec fn is_datum(self) -> bool
        decreases self,
    {
        match self {
            Sexp::Pair(first, rest) => first.is_datum() && rest.is_datum(),
            Sexp::Empty => true,
            Sexp::Integer(_) => true,
            Sexp::Symbol(name) => is_symbol_name(name),
            Sexp::Boolean(_) => true,
            _ => false,
        }
    }
}

/// The text `t` stands in `s` at offset `i`.
pub open spec fn holds_at(s: Seq<char>, i: nat, t: Seq<char>) -> bool {
    &&& i + t.len() <= s.len()
    &&& forall|k: int| 0 <= k < t.len() ==> s[i + k] == #[trigger] t[k]
}

/// No atom goes on at offset `k`: the text ends there, or a character
/// stands there that no atom holds.
pub open spec fn ends_atom(s: Seq<char>, k: nat) -> bool {
    k >= s.len() || !is_symbol_char(s[k as int])
}

/// Where a text made of two stands, the first of the two stands, and the
/// second stands right after it.
proof fn lemma_holds_at_split(s: Seq<char>, i: nat, a: Seq<char>, b: Seq<char>)
    requires
        holds_at(s, i, a + b),
    ensures
        holds_at(s, i, a),
        holds_at(s, i + a.len(), b),
{
    let ab = a + b;
    assert forall|k: int| 0 <= k < a.len() implies s[i + k] == #[trigger] a[k] by {
        assert(ab[k] == a[k]);
    }
    assert forall|k: int| 0 <= k < b.len() implies s[i + a.len() + k] == #[trigger] b[k] by {
        assert(ab[a.len() + k] == b[k]);
    }
}

/// The decimal digits of a number are digits, at least one, and stand for
/// the number.
pub proof fn lemma_digits(n: nat)
    ensures
        digits(n).len() > 0,
        all_digits(digits(n)),
        digits_value(digits(n)) == n,
    decreases n,
{
    if n < 10 {
        let ds = digits(n);
        assert(ds.len() == 1);
        assert(ds[0] == digit_char(n as int));
        assert(ds.drop_last() =~= Seq::<char>::empty());
        assert(digits_value(ds.drop_last()) == 0);
    } else {
        lemma_digits(n / 10);
        let ds = digits(n);
        let front = digits(n / 10);
        assert(ds.drop_last() =~= front);
        assert(ds.last() == digit_char((n % 10) as int));
        assert forall|i: int| 0 <= i < ds.len() implies is_digit(#[trigger] ds[i]) by {
            if i < front.len() {
                assert(ds[i] == front[i]);
            }
        }
    }
}

/// The decimal form of an integer has the form of an integer, stands for
/// that integer, and is made of the characters of atoms.
pub proof fn lemma_decimal(i: int)
    ensures
        decimal(i).len() > 0,
        is_integer_form(decimal(i)),
        integer_value(decimal(i)) == i,
        forall|k: int| 0 <= k < decimal(i).len() ==> is_symbol_char(#[trigger] decimal(i)[k]),
{
    let t = decimal(i);
    if i < 0 {
        let ds = digits((-i) as nat);
        lemma_digits((-i) as nat);
        assert(t[0] == '-');
        assert(t.skip(1) =~= ds);
        assert forall|k: int| 0 <= k < t.len() implies is_symbol_char(#[trigger] t[k]) by {
            if k > 0 {
                assert(t[k] == ds[k - 1]);
                assert(is_digit(ds[k - 1]));
            }
        }
    } else {
        lemma_digits(i as nat);
        assert(is_digit(t[0]));
        assert(t.skip(0) =~= t);
        assert forall|k: int| 0 <= k < t.len() implies is_symbol_char(#[trigger] t[k]) by {
            assert(is_digit(t[k]));
        }
    }
}

/// An atom goes on for as long as its characters do.
proof fn lemma_atom_end_run(s: Seq<char>, i: nat, n: nat)
    requires
        i + n <= s.len(),
        forall|k: int| 0 <= k < n ==> is_symbol_char(#[trigger] s[i + k]),
        ends_atom(s, i + n),
    ensures
        atom_end(s, i) == i + n,
    decreases n,
{
    if n > 0 {
        assert(is_symbol_char(s[i + 0int]));
        assert forall|k: int| 0 <= k < n - 1 implies is_symbol_char(#[trigger] s[i + 1 + k]) by {
            assert(is_symbol_char(s[i + (k + 1)]));
        }
        lemma_atom_end_run(s, i + 1, (n - 1) as nat);
    }
}

/// The text of an atom, standing where no atom goes on after it, is read
/// as that atom.
proof fn lemma_parse_atom(s: Seq<char>, i: nat, t: Seq<char>)
    requires
        holds_at(s, i, t),
        ends_atom(s, i + t.len()),
        t.len() > 0,
        forall|k: int| 0 <= k < t.len() ==> is_symbol_char(#[trigger] t[k]),
    ensures
        parse_expr(s, i) == Ok::<(Datum, nat), nat>((atom_spec(t, i), i + t.len())),
{
    assert(s[i + 0int] == t[0]);
    assert(is_symbol_char(t[0]));
    assert(skip_spaces(s, i) == i);
    assert forall|k: int| 0 <= k < t.len() implies is_symbol_char(#[trigger] s[i + k]) by {
        assert(s[i + k] == t[k]);
    }
    lemma_atom_end_run(s, i, t.len());
    assert(s.subrange(i as int, i as int + t.len()) =~= t);
}

/// The first character of the text of a value that can be written down is
/// no space, no closing bracket and no dot.
proof fn lemma_render_starts(x: Sexp)
    requires
        x.is_datum(),
    ensures
        x.render().len() > 0,
        !is_space(x.render()[0]),
        x.render()[0] != ')',
        x.render()[0] != '.',
{
    reveal_strlit("()");
    reveal_strlit("(");
    reveal_strlit("#t");
    reveal_strlit("#f");
    match x {
        Sexp::Integer(i) => {
            lemma_decimal(i as int);
            assert(is_symbol_char(decimal(i as int)[0]));
        },
        Sexp::Symbol(name) => {
            assert(is_symbol_char(name[0]));
        },
        _ => {},
    }
}

/// What follows the first element of a list starts with a space or with
/// the closing bracket.
proof fn lemma_render_tail_starts(x: Sexp)
    ensures
        x.render_tail().len() > 0,
        x.render_tail()[0] == ' ' || x.render_tail()[0] == ')',
{
    reveal_strlit(")");
    reveal_strlit(" ");
    reveal_strlit(" . ");
}

/// The text of a value, standing in `s` at offset `i` where no atom goes
/// on after it, is read from `i` as that value.
proof fn lemma_parse_rendered(s: Seq<char>, i: nat, x: Sexp)
    requires
        x.is_datum(),
        holds_at(s, i, x.render()),
        ends_atom(s, i + x.render().len()),
    ensures
        parse_expr(s, i) == Ok::<(Datum, nat), nat>((Ok(x), i + x.render().len())),
    decreases x, 0nat,
{
    let r = x.render();
    lemma_parts_are_smaller(x);
    match x {
        Sexp::Empty => {
            reveal_strlit("()");
            assert(s[i + 0int] == r[0] && s[i + 1int] == r[1]);
            assert(skip_spaces(s, i) == i);
            assert(skip_spaces(s, i + 1) == i + 1);
            assert(parse_list(s, i + 1, true) == Ok::<(Datum, nat), nat>(
                (Ok(Sexp::Empty), i + 2),
            ));
        },
        Sexp::Integer(n) => {
            lemma_decimal(n as int);
            lemma_parse_atom(s, i, r);
        },
        Sexp::Symbol(name) => {
            lemma_parse_atom(s, i, r);
        },
        Sexp::Boolean(t) => {
            reveal_strlit("#t");
            reveal_strlit("#f");
            assert(r.skip(sign_len(r)) =~= r);
            assert(!is_digit(r[0]));
            lemma_parse_atom(s, i, r);
        },
        Sexp::Pair(first, rest) => {
            reveal_strlit("(");
            let open = "("@;
            let head = first.render();
            let tail = rest.render_tail();
            assert(r == open + head + tail);
            lemma_holds_at_split(s, i, open + head, tail);
            lemma_holds_at_split(s, i, open, head);
            assert(s[i + 0int] == open[0]);
            assert(skip_spaces(s, i) == i);
            lemma_render_starts(*first);
            lemma_render_tail_starts(*rest);
            assert(s[i + 1 + 0int] == head[0]);
            assert(skip_spaces(s, i + 1) == i + 1);
            let k = i + 1 + head.len();
            assert(s[k + 0int] == tail[0]);
            lemma_parse_rendered(s, i + 1, *first);
            lemma_parse_rendered_tail(s, k, *rest);
        },
        _ => {},
    }
}

/// The text of the rest of a list, standing in `s` at offset `i`, is read
/// from `i` as that rest.
proof fn lemma_parse_rendered_tail(s: Seq<char>, i: nat, x: Sexp)
    requires
        x.is_datum(),
        holds_at(s, i, x.render_tail()),
    ensures
        parse_list(s, i, false) == Ok::<(Datum, nat), nat>((Ok(x), i + x.render_tail().len())),
    decreases x, 1nat,
{
    let r = x.render_tail();
    lemma_parts_are_smaller(x);
    match x {
        Sexp::Empty => {
            reveal_strlit(")");
            assert(s[i + 0int] == r[0]);
            assert(skip_spaces(s, i) == i);
        },
        Sexp::Pair(first, rest) => {
            reveal_strlit(" ");
            let gap = " "@;
            let head = first.render();
            let tail = rest.render_tail();
            assert(r == gap + head + tail);
            lemma_holds_at_split(s, i, gap + head, tail);
            lemma_holds_at_split(s, i, gap, head);
            assert(s[i + 0int] == gap[0]);
            lemma_render_starts(*first);
            lemma_render_tail_starts(*rest);
            assert(s[i + 1 + 0int] == head[0]);
            assert(skip_spaces(s, i + 1) == i + 1);
            assert(skip_spaces(s, i) == i + 1);
            let k = i + 1 + head.len();
            assert(s[k + 0int] == tail[0]);
            lemma_parse_rendered(s, i + 1, *first);
            lemma_parse_rendered_tail(s, k, *rest);
        },
        _ => {
            reveal_strlit(" . ");
            reveal_strlit(")");
            let dot = " . "@;
            let close = ")"@;
            let body = x.render();
            assert(r == dot + body + close);
            lemma_holds_at_split(s, i, dot + body, close);
            lemma_holds_at_split(s, i, dot, body);
            assert(s[i + 0int] == dot[0] && s[i + 1int] == dot[1] && s[i + 2int] == dot[2]);
            lemma_render_starts(x);
            assert(s[i + 3 + 0int] == body[0]);
            let k = i + 3 + body.len();
            assert(s[k + 0int] == close[0]);
            assert(skip_spaces(s, i + 3) == i + 3);
            assert(skip_spaces(s, i + 2) == i + 3);
            assert(skip_spaces(s, i + 1) == i + 1);
            assert(skip_spaces(s, i) == i + 1);
            assert(skip_spaces(s, k) == k);
            lemma_parse_rendered(s, i + 3, x);
            assert(parse_expr(s, i + 2) == parse_expr(s, i + 3)) by {
                lemma_skip_spaces_bounds(s, i + 2);
            }
        },
    }
}

/// Reading the text of a value gives the value back: for every value `x`
/// that can be written down, the text of `x` reads as `x`.
pub proof fn lemma_read_render(x: Sexp)
    requires
        x.is_datum(),
    ensures
        read_spec(x.render()) == Ok::<Sexp, ReadError>(x),
{
    let s = x.render();
    lemma_parse_rendered(s, 0, x);
    assert(skip_spaces(s, s.len()) == s.len());
}

/// An atom is made of the characters of atoms, from its first to its last.
proof fn lemma_atom_chars(s: Seq<char>, i: nat, k: int)
    requires
        i <= k < atom_end(s, i),
        i <= s.len(),
    ensures
        k < s.len(),
        is_symbol_char(s[k]),
    decreases s.len() - i,
{
    if i < s.len() && is_symbol_char(s[i as int]) {
        if k > i {
            lemma_atom_chars(s, i + 1, k);
        }
    }
}

/// `quote` is a name that reads as a symbol.
proof fn lemma_quote_is_a_symbol_name()
    ensures
        is_symbol_name("quote"@),
{
    reveal_strlit("quote");
    reveal_strlit("#t");
    reveal_strlit("#f");
    let name = "quote"@;
    assert(name.skip(sign_len(name)) =~= name);
    assert(!is_digit(name[0]));
}

/// Whatever is read from some offset on can be written down.
proof fn lemma_parsed_is_datum(s: Seq<char>, i: nat, first: bool)
    requires
        i <= s.len(),
    ensures
        parse_expr(s, i) matches Ok((Ok(x), _)) ==> x.is_datum(),
        parse_list(s, i, first) matches Ok((Ok(x), _)) ==> x.is_datum(),
    decreases s.len() - i,
{
    reveal_with_fuel(Sexp::is_datum, 3);
    lemma_skip_spaces_bounds(s, i);
    let j = skip_spaces(s, i);
    if j < s.len() {
        let c = s[j as int];
        assert(parse_expr(s, j) == parse_expr(s, i));
        assert(parse_expr(s, i) matches Ok((Ok(x), _)) ==> x.is_datum()) by {
            if c == '(' {
                lemma_parsed_is_datum(s, j + 1, true);
            } else if c == '\'' {
                lemma_parsed_is_datum(s, j + 1, false);
                lemma_quote_is_a_symbol_name();
            } else if is_symbol_char(c) {
                let k = atom_end(s, j);
                let t = s.subrange(j as int, k as int);
                lemma_atom_end_bounds(s, j);
                assert forall|n: int| 0 <= n < t.len() implies is_symbol_char(
                    #[trigger] t[n],
                ) by {
                    lemma_atom_chars(s, j, j + n);
                }
            }
        }
        if c == ')' {
        } else if c == '.' && !first {
            lemma_parsed_is_datum(s, j + 1, false);
        } else {
            match parse_expr(s, j) {
                Ok((_, k)) => {
                    if j < k <= s.len() {
                        lemma_parsed_is_datum(s, k, false);
                    }
                },
                Err(_) => {},
            }
        }
    }
}

/// Whatever a text reads as can be written down.
pub proof fn lemma_read_is_datum(s: Seq<char>)
    ensures
        read_spec(s) matches Ok(x) ==> x.is_datum(),
{
    lemma_parsed_is_datum(s, 0, false);
}

/// Only values that can be written down are read back from their text:
/// the text of any other value reads as something else, or not at all.
pub proof fn lemma_only_datums_read_back(x: Sexp)
    requires
        read_spec(x.render()) == Ok::<Sexp, ReadError>(x),
    ensures
        x.is_datum(),
{
    lemma_read_is_datum(x.render());
}

/// The text of what was read reads as the same value: of all the texts of
/// a value, reading and writing settle on one.
pub proof fn lemma_read_settles(s: Seq<char>)
    ensures
        read_spec(s) matches Ok(x) ==> read_spec(x.render()) == Ok::<Sexp, ReadError>(x),
{
    lemma_read_is_datum(s);
    match read_spec(s) {
        Ok(x) => {
            lemma_read_render(x);
        },
        Err(_) => {},
    }
}

} // verus!
