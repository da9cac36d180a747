use sexp_eval::eval::{
    assocv, augment, combine, eval, eval_bounded, evlis, lookup, MAX_DEPTH,
};
use sexp_eval::ground::ground;
use sexp_eval::objects::{
    acons, cons, make_bool, make_fixnum, make_symbol, nil, EvalError, Fault, FsubrFun, ObjP,
    Object, SubrFun,
};
use sexp_eval::reader::read;

fn list_of(items: &[ObjP]) -> ObjP {
    let mut list = nil();
    for item in items.iter().rev() {
        list = cons(item, &list);
    }
    list
}

fn run(text: &str) -> Result<ObjP, EvalError> {
    eval(&read(text).unwrap(), &ground())
}

#[test]
fn integers_booleans_and_the_empty_list_evaluate_to_themselves() {
    for env in [nil(), ground(), make_fixnum(3)].iter() {
        for n in [0, 1, -1, i64::MIN, i64::MAX] {
            assert_eq!(eval(&make_fixnum(n), env).unwrap(), make_fixnum(n));
        }
        assert_eq!(eval(&make_bool(true), env).unwrap(), make_bool(true));
        assert_eq!(eval(&make_bool(false), env).unwrap(), make_bool(false));
        assert_eq!(eval(&nil(), env).unwrap(), nil());
    }
}

#[test]
fn combiners_evaluate_to_themselves() {
    let subr = ObjP::new(Object::Subr(nil(), SubrFun::Car));
    let closure = ObjP::new(Object::Expr {
        form: make_fixnum(1),
        lambda_list: nil(),
        env: nil(),
    });
    assert_eq!(eval(&subr, &nil()).unwrap(), subr);
    assert_eq!(eval(&closure, &nil()).unwrap(), closure);
}

#[test]
fn quoted_list_is_not_evaluated() {
    let value = run("'(1 2 3)").unwrap();
    assert_eq!(value.render(), "(1 2 3)");
    assert_eq!(
        value,
        cons(
            &make_fixnum(1),
            &cons(&make_fixnum(2), &cons(&make_fixnum(3), &nil()))
        )
    );
}

#[test]
fn later_binding_shadows_earlier_one() {
    let x = make_symbol("x");
    let env1 = acons(&x, &make_fixnum(1), &nil());
    let env2 = acons(&x, &make_fixnum(2), &env1);
    assert_eq!(eval(&x, &env2).unwrap(), make_fixnum(2));
    assert_eq!(eval(&x, &env1).unwrap(), make_fixnum(1));
}

#[test]
fn too_few_and_too_many_arguments_are_told_apart() {
    assert!(matches!(run("(cons 1)"), Err(EvalError::NotEnoughArgs(_, _))));
    assert!(matches!(run("(cons 1 2 3)"), Err(EvalError::TooManyArgs(_, _))));
    assert!(matches!(run("(car)"), Err(EvalError::NotEnoughArgs(_, _))));
    assert!(matches!(run("(car '(1) '(2))"), Err(EvalError::TooManyArgs(_, _))));
    assert!(matches!(run("(if #t 1)"), Err(EvalError::NotEnoughArgs(_, _))));
    assert!(matches!(run("(if #t 1 2 3)"), Err(EvalError::TooManyArgs(_, _))));
    assert!(matches!(run("(quote)"), Err(EvalError::NotEnoughArgs(_, _))));
    assert!(matches!(run("(lambda (x))"), Err(EvalError::NotEnoughArgs(_, _))));
}

#[test]
fn arity_error_of_a_primitive_holds_its_parameters_and_what_was_left() {
    match run("(cons 1 2 3)") {
        Err(EvalError::TooManyArgs(ll, args)) => {
            assert_eq!(ll.render(), "(car cdr)");
            assert_eq!(args.render(), "(3)");
        }
        other => panic!("unexpected: {:?}", other),
    }
    match run("(cons 1)") {
        Err(EvalError::NotEnoughArgs(ll, args)) => {
            assert_eq!(ll.render(), "(car cdr)");
            assert_eq!(args.render(), "()");
        }
        other => panic!("unexpected: {:?}", other),
    }
}

#[test]
fn operands_that_end_in_an_atom() {
    match run("(quote . 5)") {
        Err(EvalError::DottedArgs(ll, args)) => {
            assert_eq!(ll.render(), "(thing)");
            assert_eq!(args, make_fixnum(5));
        }
        other => panic!("unexpected: {:?}", other),
    }
    assert!(matches!(run("(quote 1 . 5)"), Err(EvalError::DottedArgs(_, _))));
    assert!(matches!(run("(if #t 1 . 2)"), Err(EvalError::DottedArgs(_, _))));
    match run("(cons 1 . 2)") {
        Err(EvalError::ImproperList(tail)) => assert_eq!(tail, make_fixnum(2)),
        other => panic!("unexpected: {:?}", other),
    }
}

#[test]
fn untaken_branch_of_if_is_not_evaluated() {
    assert_eq!(run("(if #t 1 (car 5))").unwrap(), make_fixnum(1));
    assert_eq!(run("(if #f (car 5) 2)").unwrap(), make_fixnum(2));
    assert!(matches!(run("(if #f 1 (car 5))"), Err(EvalError::NotCons(_))));
}

#[test]
fn condition_of_if_must_be_a_boolean() {
    match run("(if 1 2 3)") {
        Err(EvalError::NotBoolean(value)) => assert_eq!(value, make_fixnum(1)),
        other => panic!("unexpected: {:?}", other),
    }
    assert!(matches!(run("(if '() 2 3)"), Err(EvalError::NotBoolean(_))));
    assert_eq!(run("(if (eq? 1 1) 'yes 'no)").unwrap(), make_symbol("yes"));
}

#[test]
fn closure_keeps_the_environment_it_was_made_in() {
    assert_eq!(
        run("(((lambda (x) (lambda (y) x)) 1) 2)").unwrap(),
        make_fixnum(1)
    );
    assert_eq!(
        run("(((lambda (x) (lambda (x) x)) 1) 2)").unwrap(),
        make_fixnum(2)
    );
}

#[test]
fn lambda_does_not_evaluate_its_body() {
    let closure = run("(lambda (x) (car 5))").unwrap();
    assert_eq!(closure.render(), "#<EXPR>");
    match closure.borrow() {
        Object::Expr { form, lambda_list, env } => {
            assert_eq!(form.render(), "(car 5)");
            assert_eq!(lambda_list.render(), "(x)");
            assert_eq!(*env, ground());
        }
        other => panic!("unexpected: {:?}", other),
    }
}

#[test]
fn bare_symbol_takes_all_arguments() {
    assert_eq!(
        run("((lambda x x) 1 2 3)").unwrap(),
        list_of(&[make_fixnum(1), make_fixnum(2), make_fixnum(3)])
    );
    assert_eq!(run("((lambda x x))").unwrap(), nil());
    assert_eq!(
        run("((lambda (a . rest) rest) 1 2 3)").unwrap(),
        list_of(&[make_fixnum(2), make_fixnum(3)])
    );
    let closure = ObjP::new(Object::Expr {
        form: make_symbol("x"),
        lambda_list: make_symbol("x"),
        env: nil(),
    });
    let call = cons(&closure, &list_of(&[make_fixnum(1), make_fixnum(2), make_fixnum(3)]));
    assert_eq!(eval(&call, &nil()).unwrap().render(), "(1 2 3)");
}

#[test]
fn unbound_symbol_is_an_error() {
    match eval(&make_symbol("zzz"), &ground()) {
        Err(EvalError::Unbound(name)) => assert_eq!(name, make_symbol("zzz")),
        other => panic!("unexpected: {:?}", other),
    }
    assert!(matches!(run("(cons zzz 1)"), Err(EvalError::Unbound(_))));
}

#[test]
fn calling_what_is_no_combiner_is_an_error() {
    match run("(1 2)") {
        Err(EvalError::NotCombiner(value)) => assert_eq!(value, make_fixnum(1)),
        other => panic!("unexpected: {:?}", other),
    }
    assert!(matches!(run("(#t)"), Err(EvalError::NotCombiner(_))));
    assert!(matches!(run("(())"), Err(EvalError::NotCombiner(_))));
    assert!(matches!(run("('x 1)"), Err(EvalError::NotCombiner(_))));
}

#[test]
fn primitives_compute_on_pairs() {
    assert_eq!(run("(cons 1 2)").unwrap(), cons(&make_fixnum(1), &make_fixnum(2)));
    assert_eq!(run("(car '(1 2))").unwrap(), make_fixnum(1));
    assert_eq!(run("(cdr '(1 2))").unwrap(), list_of(&[make_fixnum(2)]));
    assert_eq!(run("(car (cons 'a 'b))").unwrap(), make_symbol("a"));
    assert_eq!(run("(cdr (cons 'a 'b))").unwrap(), make_symbol("b"));
    match run("(car 5)") {
        Err(EvalError::NotCons(value)) => assert_eq!(value, make_fixnum(5)),
        other => panic!("unexpected: {:?}", other),
    }
    assert!(matches!(run("(cdr '())"), Err(EvalError::NotCons(_))));
}

#[test]
fn equality_is_by_structure() {
    assert_eq!(run("(eq? 1 1)").unwrap(), make_bool(true));
    assert_eq!(run("(eq? 1 2)").unwrap(), make_bool(false));
    assert_eq!(run("(eq? 'a 'a)").unwrap(), make_bool(true));
    assert_eq!(run("(eq? 'a 'b)").unwrap(), make_bool(false));
    assert_eq!(run("(eq? '(1 (2 . 3)) '(1 (2 . 3)))").unwrap(), make_bool(true));
    assert_eq!(run("(eq? '(1 2) '(1 3))").unwrap(), make_bool(false));
    assert_eq!(run("(eq? '() '())").unwrap(), make_bool(true));
    assert_eq!(run("(eq? 1 #t)").unwrap(), make_bool(false));
    assert_eq!(run("(eq? car car)").unwrap(), make_bool(true));
    assert_eq!(run("(eq? car cdr)").unwrap(), make_bool(false));
    assert_eq!(run("(eq? (lambda (x) x) (lambda (x) x))").unwrap(), make_bool(true));
    assert_eq!(run("(eq? (lambda (x) x) (lambda (y) y))").unwrap(), make_bool(false));
}

#[test]
fn arguments_are_evaluated_from_the_left() {
    assert!(matches!(run("(cons zzz (car 5))"), Err(EvalError::Unbound(_))));
    assert!(matches!(run("(cons (car 5) zzz)"), Err(EvalError::NotCons(_))));
}

#[test]
fn arguments_of_a_closure_are_evaluated_where_it_is_called() {
    assert_eq!(
        run("((lambda (f) ((lambda (y) (f y)) 7)) (lambda (x) x))").unwrap(),
        make_fixnum(7)
    );
}

#[test]
fn arity_error_of_a_closure_holds_the_whole_call() {
    match run("((lambda (a b) a) 1 2 3)") {
        Err(EvalError::TooManyArgs(ll, args)) => {
            assert_eq!(ll.render(), "(a b)");
            assert_eq!(args.render(), "(1 2 3)");
        }
        other => panic!("unexpected: {:?}", other),
    }
    match run("((lambda (a b) a) 1)") {
        Err(EvalError::NotEnoughArgs(ll, args)) => {
            assert_eq!(ll.render(), "(a b)");
            assert_eq!(args.render(), "(1)");
        }
        other => panic!("unexpected: {:?}", other),
    }
}

#[test]
fn augment_binds_in_step_and_puts_later_names_in_front() {
    let ll = list_of(&[make_symbol("a"), make_symbol("b")]);
    let vs = list_of(&[make_fixnum(1), make_fixnum(2)]);
    let env = acons(&make_symbol("z"), &make_fixnum(0), &nil());
    let extended = augment(&env, &ll, &vs).unwrap().unwrap();
    assert_eq!(extended.render(), "((b . 2) (a . 1) (z . 0))");
    assert_eq!(augment(&env, &nil(), &nil()).unwrap().unwrap(), env);
    let rest = augment(&env, &make_symbol("r"), &vs).unwrap().unwrap();
    assert_eq!(rest.render(), "((r 1 2) (z . 0))");
    assert!(matches!(
        augment(&env, &nil(), &make_fixnum(5)),
        Ok(Err(EvalError::TooManyArgs(_, _)))
    ));
    assert!(matches!(
        augment(&env, &ll, &make_fixnum(5)),
        Ok(Err(EvalError::NotEnoughArgs(_, _)))
    ));
}

#[test]
fn parameter_list_with_something_else_than_symbols_is_a_fault() {
    let env = nil();
    let one = list_of(&[make_fixnum(1)]);
    assert_eq!(augment(&env, &make_fixnum(5), &nil()).unwrap_err(), Fault::BadLambdaList);
    assert_eq!(augment(&env, &make_bool(true), &one).unwrap_err(), Fault::BadLambdaList);
    assert_eq!(augment(&env, &one, &one).unwrap_err(), Fault::BadLambdaList);
    assert_eq!(
        augment(&env, &cons(&make_symbol("a"), &make_fixnum(5)), &one).unwrap_err(),
        Fault::BadLambdaList
    );
    let form = read("((lambda 5 1))").unwrap();
    assert_eq!(eval_bounded(&form, &ground(), 100).unwrap_err(), Fault::BadLambdaList);
    let form = read("((lambda (1) 2) 3)").unwrap();
    assert_eq!(eval_bounded(&form, &ground(), 100).unwrap_err(), Fault::BadLambdaList);
}

#[test]
fn environment_that_is_no_list_of_bindings_is_a_fault() {
    let x = make_symbol("x");
    assert_eq!(lookup(&x, &make_fixnum(5)).unwrap_err(), Fault::IllFormedEnvironment);
    assert_eq!(
        lookup(&x, &list_of(&[make_fixnum(5)])).unwrap_err(),
        Fault::IllFormedEnvironment
    );
    assert_eq!(
        lookup(&x, &list_of(&[cons(&make_fixnum(1), &make_fixnum(2))])).unwrap_err(),
        Fault::IllFormedEnvironment
    );
    let broken_later = cons(&cons(&x, &make_fixnum(1)), &make_fixnum(5));
    assert_eq!(lookup(&x, &broken_later).unwrap().unwrap(), make_fixnum(1));
    assert_eq!(
        lookup(&make_symbol("y"), &broken_later).unwrap_err(),
        Fault::IllFormedEnvironment
    );
    assert_eq!(
        eval_bounded(&x, &make_fixnum(5), 10).unwrap_err(),
        Fault::IllFormedEnvironment
    );
}

#[test]
fn assocv_finds_the_first_entry() {
    let x = make_symbol("x");
    let y = make_symbol("y");
    let env = acons(&x, &make_fixnum(2), &acons(&y, &nil(), &acons(&x, &make_fixnum(1), &nil())));
    assert_eq!(assocv(&x, &env).unwrap(), Some(make_fixnum(2)));
    assert_eq!(assocv(&y, &env).unwrap(), Some(nil()));
    assert_eq!(assocv(&make_symbol("z"), &env).unwrap(), None);
    assert_eq!(assocv(&x, &nil()).unwrap(), None);
    assert_eq!(assocv(&make_fixnum(1), &env).unwrap(), None);
}

#[test]
fn evaluation_that_nests_too_deep_is_a_fault() {
    let omega = read("((lambda (x) (x x)) (lambda (x) (x x)))").unwrap();
    assert_eq!(
        eval_bounded(&omega, &ground(), 1000).unwrap_err(),
        Fault::DepthExceeded
    );
    assert_eq!(
        eval_bounded(&make_fixnum(1), &ground(), 0).unwrap_err(),
        Fault::DepthExceeded
    );
    assert_eq!(
        eval_bounded(&make_fixnum(1), &ground(), 1).unwrap().unwrap(),
        make_fixnum(1)
    );
    let form = read("(cons 1 2)").unwrap();
    assert_eq!(eval_bounded(&form, &ground(), 3).unwrap_err(), Fault::DepthExceeded);
    assert_eq!(
        eval_bounded(&form, &ground(), 5).unwrap().unwrap(),
        cons(&make_fixnum(1), &make_fixnum(2))
    );
    assert_eq!(
        eval_bounded(&form, &ground(), MAX_DEPTH).unwrap().unwrap(),
        cons(&make_fixnum(1), &make_fixnum(2))
    );
}

#[test]
fn evlis_evaluates_each_form() {
    let env = acons(&make_symbol("x"), &make_fixnum(7), &nil());
    let forms = list_of(&[make_symbol("x"), make_fixnum(1), make_symbol("x")]);
    assert_eq!(evlis(&forms, &env, 100).unwrap().unwrap().render(), "(7 1 7)");
    assert_eq!(evlis(&nil(), &env, 100).unwrap().unwrap(), nil());
    assert!(matches!(
        evlis(&make_fixnum(3), &env, 100),
        Ok(Err(EvalError::ImproperList(_)))
    ));
    assert!(matches!(
        evlis(&cons(&make_symbol("x"), &make_fixnum(3)), &env, 100),
        Ok(Err(EvalError::ImproperList(_)))
    ));
}

#[test]
fn combine_applies_each_kind_of_combiner() {
    let env = acons(&make_symbol("x"), &make_fixnum(7), &nil());
    let operands = list_of(&[make_symbol("x")]);
    let car = ObjP::new(Object::Subr(nil(), SubrFun::Car));
    assert!(matches!(
        combine(&car, &operands, &env, 100),
        Ok(Err(EvalError::NotCons(_)))
    ));
    let quote = ObjP::new(Object::Fsubr(nil(), FsubrFun::Quote));
    assert_eq!(combine(&quote, &operands, &env, 100).unwrap().unwrap(), make_symbol("x"));
    let closure = ObjP::new(Object::Expr {
        form: make_symbol("y"),
        lambda_list: list_of(&[make_symbol("y")]),
        env: nil(),
    });
    assert_eq!(combine(&closure, &operands, &env, 100).unwrap().unwrap(), make_fixnum(7));
    assert!(matches!(
        combine(&make_fixnum(1), &operands, &env, 100),
        Ok(Err(EvalError::NotCombiner(_)))
    ));
}
