//! The ground environment: the native primitives and the bindings that make
//! them available.

use crate::eval::{
    assocv_spec, combine_spec, eval_bounded, eval_spec, is_environment, lookup_spec,
};
use crate::objects::{
    acons, acons_spec, cons, intern, make_bool, nil, outcome_view, result_view, EvalError,
    EvalResult, Failure, Fault, FsubrFun, ObjP, Object, Outcome, Sexp, SpecOutcome, SubrFun,
};
use vstd::prelude::*;

verus! {

/// The number of pairs that a list is made of, up to where it ends.
pub open spec fn pairs_in(x: Sexp) -> nat
    decreases x,
{
    match x {
        Sexp::Pair(_, rest) => 1 + pairs_in(*rest),
        _ => 0,
    }
}

/// What is left of a list after its first `n` elements.
pub open spec fn after(x: Sexp, n: nat) -> Sexp
    decreases n,
{
    if n == 0 {
        x
    } else {
        match x {
            Sexp::Pair(_, rest) => after(*rest, (n - 1) as nat),
            _ => x,
        }
    }
}

/// The element of a list that has `n` elements before it.
pub open spec fn nth(x: Sexp, n: nat) -> Sexp {
    match after(x, n) {
        Sexp::Pair(element, _) => *element,
        other => other,
    }
}

/// What is wrong with `args` where exactly `count` arguments are expected.
/// More pairs than that are too many arguments, and the error holds what
/// is left after `count` of them. Else a list that ends in an atom is
/// dotted, and the error holds the atom. Else fewer pairs are not enough,
/// and the error holds the empty list that was reached.
pub open spec fn arity_failure(ll: Sexp, args: Sexp, count: nat) -> Option<Failure> {
    let pairs = pairs_in(args);
    if pairs > count {
        Some(Failure::TooManyArgs(ll, after(args, count)))
    } else if after(args, pairs) != Sexp::Empty {
        Some(Failure::DottedArgs(ll, after(args, pairs)))
    } else if pairs < count {
        Some(Failure::NotEnoughArgs(ll, Sexp::Empty))
    } else {
        None
    }
}

/// No argument is expected: the list must be empty.
pub open spec fn args0_spec(ll: Sexp, args: Sexp) -> Result<(), Failure> {
    match arity_failure(ll, args, 0) {
        Some(e) => Err(e),
        None => Ok(()),
    }
}

/// The one argument of a list of exactly one.
pub open spec fn args1_spec(ll: Sexp, args: Sexp) -> Result<Sexp, Failure> {
    match arity_failure(ll, args, 1) {
        Some(e) => Err(e),
        None => Ok(nth(args, 0)),
    }
}

/// The two arguments of a list of exactly two.
pub open spec fn args2_spec(ll: Sexp, args: Sexp) -> Result<(Sexp, Sexp), Failure> {
    match arity_failure(ll, args, 2) {
        Some(e) => Err(e),
        None => Ok((nth(args, 0), nth(args, 1))),
    }
}

/// The three arguments of a list of exactly three.
pub open spec fn args3_spec(ll: Sexp, args: Sexp) -> Result<(Sexp, Sexp, Sexp), Failure> {
    match arity_failure(ll, args, 3) {
        Some(e) => Err(e),
        None => Ok((nth(args, 0), nth(args, 1), nth(args, 2))),
    }
}

/// A list with one element in front is judged for one argument more as
/// the list without it is judged for one less, and its elements are that
/// one and then those of the list without it.
pub proof fn lemma_arity_step(ll: Sexp, first: Sexp, rest: Sexp, count: nat)
    ensures
        arity_failure(ll, Sexp::Pair(Box::new(first), Box::new(rest)), count + 1) == arity_failure(
            ll,
            rest,
            count,
        ),
        nth(Sexp::Pair(Box::new(first), Box::new(rest)), 0) == first,
        forall|n: nat| #[trigger]
            nth(Sexp::Pair(Box::new(first), Box::new(rest)), n + 1) == nth(rest, n),
{
    let whole = Sexp::Pair(Box::new(first), Box::new(rest));
    assert(pairs_in(whole) == 1 + pairs_in(rest));
    assert(after(whole, pairs_in(whole)) == after(rest, pairs_in(rest)));
    assert(after(whole, count + 1) == after(rest, count));
    assert forall|n: nat| #[trigger] nth(whole, n + 1) == nth(rest, n) by {
        assert(after(whole, n + 1) == after(rest, n));
    }
}

/// `cons`: the pair of its two arguments.
pub open spec fn fcons_spec(ll: Sexp, args: Sexp) -> Result<Sexp, Failure> {
    match args2_spec(ll, args) {
        Ok((first, second)) => Ok(Sexp::Pair(Box::new(first), Box::new(second))),
        Err(e) => Err(e),
    }
}

/// `car`: the first field of its argument, which must be a pair.
pub open spec fn fcar_spec(ll: Sexp, args: Sexp) -> Result<Sexp, Failure> {
    match args1_spec(ll, args) {
        Ok(Sexp::Pair(first, _)) => Ok(*first),
        Ok(other) => Err(Failure::NotCons(other)),
        Err(e) => Err(e),
    }
}

/// `cdr`: the second field of its argument, which must be a pair.
pub open spec fn fcdr_spec(ll: Sexp, args: Sexp) -> Result<Sexp, Failure> {
    match args1_spec(ll, args) {
        Ok(Sexp::Pair(_, rest)) => Ok(*rest),
        Ok(other) => Err(Failure::NotCons(other)),
        Err(e) => Err(e),
    }
}

/// `eq?`: whether its two arguments are the same value.
pub open spec fn feqv_spec(ll: Sexp, args: Sexp) -> Result<Sexp, Failure> {
    match args2_spec(ll, args) {
        Ok((first, second)) => Ok(Sexp::Boolean(first == second)),
        Err(e) => Err(e),
    }
}

/// What an applicative primitive returns for evaluated arguments.
pub open spec fn subr_spec(fun: SubrFun, ll: Sexp, args: Sexp) -> Result<Sexp, Failure> {
    match fun {
        SubrFun::Cons => fcons_spec(ll, args),
        SubrFun::Car => fcar_spec(ll, args),
        SubrFun::Cdr => fcdr_spec(ll, args),
        SubrFun::Eqv => feqv_spec(ll, args),
    }
}

/// `if`: the condition is evaluated, and then only the branch it selects.
pub open spec fn fif_spec(ll: Sexp, args: Sexp, env: Sexp, depth: nat) -> SpecOutcome
    decreases depth, 0nat,
{
    if depth == 0 {
        Err(Fault::DepthExceeded)
    } else {
        match args3_spec(ll, args) {
            Ok((condition, then, otherwise)) => match eval_spec(
                condition,
                env,
                (depth - 1) as nat,
            ) {
                Ok(Ok(Sexp::Boolean(t))) => eval_spec(
                    if t {
                        then
                    } else {
                        otherwise
                    },
                    env,
                    (depth - 1) as nat,
                ),
                Ok(Ok(other)) => Ok(Err(Failure::NotBoolean(other))),
                other => other,
            },
            Err(e) => Ok(Err(e)),
        }
    }
}

/// `quote`: its one operand, as written.
pub open spec fn fquote_spec(ll: Sexp, args: Sexp, env: Sexp) -> Result<Sexp, Failure> {
    args1_spec(ll, args)
}

/// `lambda`: a closure of the parameter list and the body over `env`.
pub open spec fn flambda_spec(ll: Sexp, args: Sexp, env: Sexp) -> Result<Sexp, Failure> {
    match args2_spec(ll, args) {
        Ok((params, body)) => Ok(
            Sexp::Closure { body: Box::new(body), params: Box::new(params), env: Box::new(env) },
        ),
        Err(e) => Err(e),
    }
}

/// What an operative primitive makes of its operands in the environment of
/// the call.
pub open spec fn fsubr_spec(
    fun: FsubrFun,
    ll: Sexp,
    args: Sexp,
    env: Sexp,
    depth: nat,
) -> SpecOutcome
    decreases depth, 1nat,
{
    match fun {
        FsubrFun::If => fif_spec(ll, args, env, depth),
        FsubrFun::Quote => Ok(fquote_spec(ll, args, env)),
        FsubrFun::Lambda => Ok(flambda_spec(ll, args, env)),
    }
}

/// Checks that no argument is left.
pub fn args0(ll: &ObjP, args: &ObjP) -> (r: Result<(), EvalError>)
    ensures
        match r {
            Ok(_) => args0_spec(ll@, args@) is Ok,
            Err(e) => args0_spec(ll@, args@) == Err::<(), Failure>(e@),
        },
{
    match args.borrow() {
        Object::Null => Ok(()),
        Object::Cons { .. } => Err(EvalError::TooManyArgs(ll.clone(), args.clone())),
        _ => Err(EvalError::DottedArgs(ll.clone(), args.clone())),
    }
}

/// Takes the one argument out of a list of exactly one.
pub fn args1(ll: &ObjP, args: &ObjP) -> (r: Result<ObjP, EvalError>)
    ensures
        result_view(r) == args1_spec(ll@, args@),
{
    match args.borrow() {
        Object::Null => Err(EvalError::NotEnoughArgs(ll.clone(), args.clone())),
        Object::Cons { car, cdr } => {
            proof {
                lemma_arity_step(ll@, car@, cdr@, 0);
            }
            match args0(ll, cdr) {
                Ok(_) => Ok(car.clone()),
                Err(e) => Err(e),
            }
        },
        _ => Err(EvalError::DottedArgs(ll.clone(), args.clone())),
    }
}

/// Takes the two arguments out of a list of exactly two.
pub fn args2(ll: &ObjP, args: &ObjP) -> (r: Result<(ObjP, ObjP), EvalError>)
    ensures
        match r {
            Ok((first, second)) => args2_spec(ll@, args@) == Ok::<(Sexp, Sexp), Failure>(
                (first@, second@),
            ),
            Err(e) => args2_spec(ll@, args@) == Err::<(Sexp, Sexp), Failure>(e@),
        },
{
    match args.borrow() {
        Object::Null => Err(EvalError::NotEnoughArgs(ll.clone(), args.clone())),
        Object::Cons { car, cdr } => {
            proof {
                lemma_arity_step(ll@, car@, cdr@, 1);
            }
            match args1(ll, cdr) {
                Ok(second) => Ok((car.clone(), second)),
                Err(e) => Err(e),
            }
        },
        _ => Err(EvalError::DottedArgs(ll.clone(), args.clone())),
    }
}

/// Takes the three arguments out of a list of exactly three.
pub fn args3(ll: &ObjP, args: &ObjP) -> (r: Result<(ObjP, ObjP, ObjP), EvalError>)
    ensures
        match r {
            Ok((first, second, third)) => args3_spec(ll@, args@) == Ok::<
                (Sexp, Sexp, Sexp),
                Failure,
            >((first@, second@, third@)),
            Err(e) => args3_spec(ll@, args@) == Err::<(Sexp, Sexp, Sexp), Failure>(e@),
        },
{
    match args.borrow() {
        Object::Null => Err(EvalError::NotEnoughArgs(ll.clone(), args.clone())),
        Object::Cons { car, cdr } => {
            proof {
                lemma_arity_step(ll@, car@, cdr@, 2);
            }
            match args2(ll, cdr) {
                Ok((second, third)) => Ok((car.clone(), second, third)),
                Err(e) => Err(e),
            }
        },
        _ => Err(EvalError::DottedArgs(ll.clone(), args.clone())),
    }
}

/// The primitive `cons`.
pub fn fcons(ll: &ObjP, args: &ObjP) -> (r: EvalResult)
    ensures
        result_view(r) == fcons_spec(ll@, args@),
{
    match args2(ll, args) {
        Ok((first, second)) => Ok(cons(&first, &second)),
        Err(e) => Err(e),
    }
}

/// The primitive `car`.
pub fn fcar(ll: &ObjP, args: &ObjP) -> (r: EvalResult)
    ensures
        result_view(r) == fcar_spec(ll@, args@),
{
    match args1(ll, args) {
        Ok(arg) => match arg.borrow() {
            Object::Cons { car, .. } => Ok(car.clone()),
            _ => Err(EvalError::NotCons(arg)),
        },
        Err(e) => Err(e),
    }
}

/// The primitive `cdr`.
pub fn fcdr(ll: &ObjP, args: &ObjP) -> (r: EvalResult)
    ensures
        result_view(r) == fcdr_spec(ll@, args@),
{
    match args1(ll, args) {
        Ok(arg) => match arg.borrow() {
            Object::Cons { cdr, .. } => Ok(cdr.clone()),
            _ => Err(EvalError::NotCons(arg)),
        },
        Err(e) => Err(e),
    }
}

/// The primitive `eq?`.
pub fn feqv(ll: &ObjP, args: &ObjP) -> (r: EvalResult)
    ensures
        result_view(r) == feqv_spec(ll@, args@),
{
    match args2(ll, args) {
        Ok((first, second)) => Ok(make_bool(first.same(&second))),
        Err(e) => Err(e),
    }
}

/// The primitive `if`.
pub fn fif(ll: &ObjP, args: &ObjP, env: &ObjP, depth: u64) -> (r: Outcome)
    ensures
        outcome_view(r) == fif_spec(ll@, args@, env@, depth as nat),
    decreases depth, 0nat,
{
    if depth == 0 {
        return Err(Fault::DepthExceeded);
    }
    match args3(ll, args) {
        Ok((condition, then, otherwise)) => match eval_bounded(&condition, env, depth - 1) {
            Ok(Ok(value)) => match value.borrow() {
                Object::Boolean(t) => eval_bounded(
                    if *t {
                        &then
                    } else {
                        &otherwise
                    },
                    env,
                    depth - 1,
                ),
                _ => Ok(Err(EvalError::NotBoolean(value))),
            },
            other => other,
        },
        Err(e) => Ok(Err(e)),
    }
}

/// The primitive `quote`.
pub fn fquote(ll: &ObjP, args: &ObjP, _env: &ObjP) -> (r: EvalResult)
    ensures
        result_view(r) == fquote_spec(ll@, args@, _env@),
{
    args1(ll, args)
}

/// The primitive `lambda`.
pub fn flambda(ll: &ObjP, args: &ObjP, env: &ObjP) -> (r: EvalResult)
    ensures
        result_view(r) == flambda_spec(ll@, args@, env@),
{
    match args2(ll, args) {
        Ok((params, body)) => Ok(
            ObjP::new(Object::Expr { form: body, lambda_list: params, env: env.clone() }),
        ),
        Err(e) => Err(e),
    }
}

impl SubrFun {
    /// Runs the primitive on arguments that have been evaluated.
    pub fn call(&self, ll: &ObjP, args: &ObjP) -> (r: EvalResult)
        ensures
            result_view(r) == subr_spec(*self, ll@, args@),
    {
        match self {
            SubrFun::Cons => fcons(ll, args),
            SubrFun::Car => fcar(ll, args),
            SubrFun::Cdr => fcdr(ll, args),
            SubrFun::Eqv => feqv(ll, args),
        }
    }
}

impl FsubrFun {
    /// Runs the primitive on operands as written, in the environment of
    /// the call.
    pub fn call(&self, ll: &ObjP, args: &ObjP, env: &ObjP, depth: u64) -> (r: Outcome)
        ensures
            outcome_view(r) == fsubr_spec(*self, ll@, args@, env@, depth as nat),
        decreases depth, 1nat,
    {
        match self {
            FsubrFun::If => fif(ll, args, env, depth),
            FsubrFun::Quote => Ok(fquote(ll, args, env)),
            FsubrFun::Lambda => Ok(flambda(ll, args, env)),
        }
    }
}

/// The list of one element.
pub open spec fn list1_spec(arg0: Sexp) -> Sexp {
    Sexp::Pair(Box::new(arg0), Box::new(Sexp::Empty))
}

/// The list of two elements.
pub open spec fn list2_spec(arg0: Sexp, arg1: Sexp) -> Sexp {
    Sexp::Pair(Box::new(arg0), Box::new(list1_spec(arg1)))
}

/// The list of three elements.
pub open spec fn list3_spec(arg0: Sexp, arg1: Sexp, arg2: Sexp) -> Sexp {
    Sexp::Pair(Box::new(arg0), Box::new(list2_spec(arg1, arg2)))
}

/// The list of one object.
pub fn list1(arg0: &ObjP) -> (p: ObjP)
    ensures
        p@ == list1_spec(arg0@),
{
    cons(arg0, &nil())
}

/// The list of two objects.
pub fn list2(arg0: &ObjP, arg1: &ObjP) -> (p: ObjP)
    ensures
        p@ == list2_spec(arg0@, arg1@),
{
    cons(arg0, &list1(arg1))
}

/// The list of three objects.
pub fn list3(arg0: &ObjP, arg1: &ObjP, arg2: &ObjP) -> (p: ObjP)
    ensures
        p@ == list3_spec(arg0@, arg1@, arg2@),
{
    cons(arg0, &list2(arg1, arg2))
}

/// The symbol of the given name.
pub open spec fn symbol(name: &str) -> Sexp {
    Sexp::Symbol(name@)
}

/// The ground environment: each primitive under its name, the one bound
/// last in front.
pub open spec fn ground_spec() -> Sexp {
    let subrs = acons_spec(
        symbol("eq?"),
        Sexp::Applicative(Box::new(list2_spec(symbol("o1"), symbol("o2"))), SubrFun::Eqv),
        acons_spec(
            symbol("cdr"),
            Sexp::Applicative(Box::new(list1_spec(symbol("cons"))), SubrFun::Cdr),
            acons_spec(
                symbol("car"),
                Sexp::Applicative(Box::new(list1_spec(symbol("cons"))), SubrFun::Car),
                acons_spec(
                    symbol("cons"),
                    Sexp::Applicative(
                        Box::new(list2_spec(symbol("car"), symbol("cdr"))),
                        SubrFun::Cons,
                    ),
                    Sexp::Empty,
                ),
            ),
        ),
    );
    acons_spec(
        symbol("lambda"),
        Sexp::Operative(
            Box::new(list2_spec(symbol("lambda-list"), symbol("body"))),
            FsubrFun::Lambda,
        ),
        acons_spec(
            symbol("quote"),
            Sexp::Operative(Box::new(list1_spec(symbol("thing"))), FsubrFun::Quote),
            acons_spec(
                symbol("if"),
                Sexp::Operative(
                    Box::new(list3_spec(symbol("condition"), symbol("then"), symbol("else"))),
                    FsubrFun::If,
                ),
                subrs,
            ),
        ),
    )
}

/// Builds the ground environment.
pub fn ground() -> (env: ObjP)
    ensures
        env@ == ground_spec(),
{
    let mut env = nil();
    let cons_n = intern("cons");
    let car_n = intern("car");
    let cdr_n = intern("cdr");
    let eqv_n = intern("eq?");
    let o1_n = intern("o1");
    let o2_n = intern("o2");
    env = acons(&cons_n, &ObjP::new(Object::Subr(list2(&car_n, &cdr_n), SubrFun::Cons)), &env);
    env = acons(&car_n, &ObjP::new(Object::Subr(list1(&cons_n), SubrFun::Car)), &env);
    env = acons(&cdr_n, &ObjP::new(Object::Subr(list1(&cons_n), SubrFun::Cdr)), &env);
    env = acons(&eqv_n, &ObjP::new(Object::Subr(list2(&o1_n, &o2_n), SubrFun::Eqv)), &env);
    let if_n = intern("if");
    let condition_n = intern("condition");
    let then_n = intern("then");
    let else_n = intern("else");
    let lambda_n = intern("lambda");
    let ll_n = intern("lambda-list");
    let body_n = intern("body");
    let quote_n = intern("quote");
    let thing_n = intern("thing");
    env = acons(
        &if_n,
        &ObjP::new(Object::Fsubr(list3(&condition_n, &then_n, &else_n), FsubrFun::If)),
        &env,
    );
    env = acons(&quote_n, &ObjP::new(Object::Fsubr(list1(&thing_n), FsubrFun::Quote)), &env);
    env = acons(
        &lambda_n,
        &ObjP::new(Object::Fsubr(list2(&ll_n, &body_n), FsubrFun::Lambda)),
        &env,
    );
    env
}

/// The checks hand out the arguments of a list of the right length, in
/// their order.
pub proof fn lemma_args_of_a_list(ll: Sexp, a: Sexp, b: Sexp, c: Sexp)
    ensures
        args0_spec(ll, Sexp::Empty) is Ok,
        args1_spec(ll, list1_spec(a)) == Ok::<Sexp, Failure>(a),
        args2_spec(ll, list2_spec(a, b)) == Ok::<(Sexp, Sexp), Failure>((a, b)),
        args3_spec(ll, list3_spec(a, b, c)) == Ok::<(Sexp, Sexp, Sexp), Failure>((a, b, c)),
{
    reveal_with_fuel(pairs_in, 5);
    reveal_with_fuel(after, 5);
}

/// The ground environment is an environment.
pub proof fn lemma_ground_is_environment()
    ensures
        is_environment(ground_spec()),
{
    reveal_with_fuel(is_environment, 8);
}

/// In the ground environment each primitive stands under its name, and
/// no other name is bound.
pub proof fn lemma_ground_bindings(name: Sexp)
    ensures
        lookup_spec(symbol("cons"), ground_spec()) == Ok::<Result<Sexp, Failure>, Fault>(
            Ok(
                Sexp::Applicative(
                    Box::new(list2_spec(symbol("car"), symbol("cdr"))),
                    SubrFun::Cons,
                ),
            ),
        ),
        lookup_spec(symbol("car"), ground_spec()) == Ok::<Result<Sexp, Failure>, Fault>(
            Ok(Sexp::Applicative(Box::new(list1_spec(symbol("cons"))), SubrFun::Car)),
        ),
        lookup_spec(symbol("cdr"), ground_spec()) == Ok::<Result<Sexp, Failure>, Fault>(
            Ok(Sexp::Applicative(Box::new(list1_spec(symbol("cons"))), SubrFun::Cdr)),
        ),
        lookup_spec(symbol("eq?"), ground_spec()) == Ok::<Result<Sexp, Failure>, Fault>(
            Ok(
                Sexp::Applicative(
                    Box::new(list2_spec(symbol("o1"), symbol("o2"))),
                    SubrFun::Eqv,
                ),
            ),
        ),
        lookup_spec(symbol("if"), ground_spec()) == Ok::<Result<Sexp, Failure>, Fault>(
            Ok(
                Sexp::Operative(
                    Box::new(list3_spec(symbol("condition"), symbol("then"), symbol("else"))),
                    FsubrFun::If,
                ),
            ),
        ),
        lookup_spec(symbol("quote"), ground_spec()) == Ok::<Result<Sexp, Failure>, Fault>(
            Ok(Sexp::Operative(Box::new(list1_spec(symbol("thing"))), FsubrFun::Quote)),
        ),
        lookup_spec(symbol("lambda"), ground_spec()) == Ok::<Result<Sexp, Failure>, Fault>(
            Ok(
                Sexp::Operative(
                    Box::new(list2_spec(symbol("lambda-list"), symbol("body"))),
                    FsubrFun::Lambda,
                ),
            ),
        ),
        name != symbol("cons") && name != symbol("car") && name != symbol("cdr") && name != symbol(
            "eq?",
        ) && name != symbol("if") && name != symbol("quote") && name != symbol("lambda")
            ==> lookup_spec(name, ground_spec()) == Ok::<Result<Sexp, Failure>, Fault>(
            Err(Failure::Unbound(name)),
        ),
{
    reveal_with_fuel(assocv_spec, 8);
    reveal_strlit("cons");
    reveal_strlit("car");
    reveal_strlit("cdr");
    reveal_strlit("eq?");
    reveal_strlit("if");
    reveal_strlit("quote");
    reveal_strlit("lambda");
    assert("cons"@.len() == 4 && "car"@.len() == 3 && "cdr"@.len() == 3 && "eq?"@.len() == 3);
    assert("if"@.len() == 2 && "quote"@.len() == 5 && "lambda"@.len() == 6);
    assert("car"@[1] == 'a' && "cdr"@[1] == 'd' && "eq?"@[1] == 'q');
}

/// Quoting: in the ground environment `(quote x)` evaluates to `x` as it
/// is written, whatever `x` is.
pub proof fn lemma_quote_gives_operand(x: Sexp, depth: nat)
    requires
        depth >= 4,
    ensures
        eval_spec(list2_spec(symbol("quote"), x), ground_spec(), depth) == Ok::<
            Result<Sexp, Failure>,
            Fault,
        >(Ok(x)),
{
    lemma_ground_bindings(symbol("quote"));
    lemma_args_of_a_list(list1_spec(symbol("thing")), x, x, x);
    reveal_with_fuel(eval_spec, 3);
    reveal_with_fuel(combine_spec, 2);
}

/// `if` evaluates the branch that its condition selects and nothing of the
/// other: the outcome is that of the selected branch, whatever the other
/// branch is.
pub proof fn lemma_if_evaluates_one_branch(
    ll: Sexp,
    condition: Sexp,
    then: Sexp,
    otherwise: Sexp,
    env: Sexp,
    depth: nat,
    t: bool,
)
    requires
        depth > 0,
        eval_spec(condition, env, (depth - 1) as nat) == Ok::<Result<Sexp, Failure>, Fault>(
            Ok(Sexp::Boolean(t)),
        ),
    ensures
        fif_spec(ll, list3_spec(condition, then, otherwise), env, depth) == eval_spec(
            if t {
                then
            } else {
                otherwise
            },
            env,
            (depth - 1) as nat,
        ),
{
    lemma_args_of_a_list(ll, condition, then, otherwise);
}

/// `lambda` makes a closure over the environment in which it is evaluated,
/// and evaluates neither the parameter list nor the body.
pub proof fn lemma_lambda_captures_environment(
    ll: Sexp,
    params: Sexp,
    body: Sexp,
    env: Sexp,
    depth: nat,
)
    ensures
        fsubr_spec(FsubrFun::Lambda, ll, list2_spec(params, body), env, depth) == Ok::<
            Result<Sexp, Failure>,
            Fault,
        >(
            Ok(
                Sexp::Closure {
                    body: Box::new(body),
                    params: Box::new(params),
                    env: Box::new(env),
                },
            ),
        ),
{
    lemma_args_of_a_list(ll, params, body, body);
}

} // verus!
