use sexp_eval::objects::{
    acons, cons, intern, make_bool, make_fixnum, make_symbol, nil, FsubrFun, ObjP, Object, SubrFun,
};

#[test]
fn proper_list_renders_with_spaces() {
    let list = cons(
        &make_fixnum(1),
        &cons(&make_symbol("b"), &cons(&make_bool(true), &nil())),
    );
    assert_eq!(list.render(), "(1 b #t)");
}

#[test]
fn dotted_list_renders_with_dot() {
    let list = cons(&make_fixnum(1), &cons(&make_fixnum(2), &make_fixnum(-3)));
    assert_eq!(list.render(), "(1 2 . -3)");
}

#[test]
fn extreme_integers_render_in_decimal() {
    assert_eq!(make_fixnum(i64::MIN).render(), "-9223372036854775808");
    assert_eq!(make_fixnum(i64::MAX).render(), "9223372036854775807");
    assert_eq!(make_fixnum(0).render(), "0");
}

#[test]
fn atoms_render_as_written() {
    assert_eq!(nil().render(), "()");
    assert_eq!(make_bool(true).render(), "#t");
    assert_eq!(make_bool(false).render(), "#f");
    assert_eq!(make_symbol("lambda-list").render(), "lambda-list");
    assert_eq!(make_fixnum(-7).render(), "-7");
    assert_eq!(make_fixnum(1234567890).render(), "1234567890");
}

#[test]
fn nested_lists_render_inside_out() {
    let inner = cons(&make_fixnum(1), &cons(&nil(), &nil()));
    let outer = cons(&inner, &cons(&cons(&make_symbol("a"), &make_symbol("b")), &nil()));
    assert_eq!(outer.render(), "((1 ()) (a . b))");
}

#[test]
fn combiners_render_as_placeholders() {
    let subr = ObjP::new(Object::Subr(nil(), SubrFun::Cons));
    let fsubr = ObjP::new(Object::Fsubr(nil(), FsubrFun::If));
    let expr = ObjP::new(Object::Expr {
        form: make_fixnum(1),
        lambda_list: nil(),
        env: nil(),
    });
    assert_eq!(subr.render(), "#<SUBR>");
    assert_eq!(fsubr.render(), "#<FSUBR>");
    assert_eq!(expr.render(), "#<EXPR>");
    assert_eq!(cons(&subr, &expr).render(), "(#<SUBR> . #<EXPR>)");
}

#[test]
fn equality_compares_values_not_handles() {
    let a = cons(&make_fixnum(1), &make_symbol("x"));
    let b = cons(&make_fixnum(1), &make_symbol("x"));
    assert_eq!(a, b);
    assert!(a.same(&b));
    assert_eq!(a, a.clone());
    assert_ne!(a, cons(&make_fixnum(1), &make_symbol("y")));
    assert_ne!(a, cons(&make_fixnum(2), &make_symbol("x")));
    assert_ne!(nil(), make_bool(false));
    assert_ne!(make_fixnum(0), make_bool(false));
    assert_ne!(make_symbol("1"), make_fixnum(1));
    assert_eq!(intern("name"), make_symbol("name"));
}

#[test]
fn primitives_with_the_same_parts_are_equal() {
    let one = ObjP::new(Object::Subr(nil(), SubrFun::Car));
    let other = ObjP::new(Object::Subr(nil(), SubrFun::Car));
    assert_eq!(one, other);
    assert_ne!(one, ObjP::new(Object::Subr(nil(), SubrFun::Cdr)));
    assert_ne!(one, ObjP::new(Object::Subr(make_fixnum(1), SubrFun::Car)));
    assert_ne!(
        ObjP::new(Object::Fsubr(nil(), FsubrFun::If)),
        ObjP::new(Object::Fsubr(nil(), FsubrFun::Quote))
    );
    let closure = |body: i64| {
        ObjP::new(Object::Expr {
            form: make_fixnum(body),
            lambda_list: nil(),
            env: nil(),
        })
    };
    assert_eq!(closure(1), closure(1));
    assert_ne!(closure(1), closure(2));
}

#[test]
fn acons_puts_an_entry_in_front() {
    let env = acons(&make_symbol("a"), &make_fixnum(1), &nil());
    let env = acons(&make_symbol("b"), &make_fixnum(2), &env);
    assert_eq!(env.render(), "((b . 2) (a . 1))");
}

#[test]
fn borrow_gives_the_object_behind_the_handle() {
    match make_fixnum(5).borrow() {
        Object::Fixnum(i) => assert_eq!(*i, 5),
        other => panic!("unexpected: {:?}", other),
    }
    match cons(&make_fixnum(1), &nil()).borrow() {
        Object::Cons { car, cdr } => {
            assert_eq!(*car, make_fixnum(1));
            assert_eq!(*cdr, nil());
        }
        other => panic!("unexpected: {:?}", other),
    }
}

#[test]
fn objects_compare_and_render_like_their_handles() {
    let pair = Object::Cons { car: make_fixnum(1), cdr: nil() };
    let same = Object::Cons { car: make_fixnum(1), cdr: nil() };
    let other = Object::Cons { car: make_fixnum(2), cdr: nil() };
    assert_eq!(pair, same);
    assert!(pair.same(&same));
    assert_ne!(pair, other);
    assert_ne!(Object::Null, Object::Boolean(false));
    assert_eq!(Object::Symbol(String::from("a")), *make_symbol("a").borrow());
    assert_eq!(pair.render(), "(1)");
    assert_eq!(Object::Null.render(), "()");
    assert_eq!(Object::Fixnum(-1).render(), "-1");
    assert_eq!(ObjP::new(pair).render(), "(1)");
}

#[test]
fn every_digit_renders() {
    assert_eq!(make_fixnum(1234567890).render(), "1234567890");
    assert_eq!(make_fixnum(-9876543210).render(), "-9876543210");
    assert_eq!(make_fixnum(10).render(), "10");
    assert_eq!(make_fixnum(-10).render(), "-10");
    assert_eq!(make_fixnum(9).render(), "9");
    assert_eq!(make_fixnum(100000).render(), "100000");
}

#[test]
fn symbols_render_as_their_names_whatever_they_hold() {
    assert_eq!(make_symbol("").render(), "");
    assert_eq!(make_symbol("a b").render(), "a b");
    assert_eq!(make_symbol("12").render(), "12");
    assert_eq!(cons(&make_symbol("x"), &make_symbol("()")).render(), "(x . ())");
}
