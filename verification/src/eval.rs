//! The evaluator: forms are evaluated in an environment, operators are
//! combined with their operands, and parameters are bound to arguments.

use crate::ground::{fsubr_spec, subr_spec};
use crate::objects::{
    acons, acons_spec, cons, lemma_parts_are_smaller, outcome_view, result_view, EvalError,
    EvalResult, Failure, Fault, ObjP, Object, Outcome, Sexp, SpecOutcome,
};
use vstd::prelude::*;

verus! {

/// The value that the first entry for `key` gives it, scanning `alist` from
/// the front; `None` where the list ends without one. An entry that is not
/// a pair with a symbol in front, or a tail that is not a list, is a fault
/// once the scan reaches it.
pub open spec fn assocv_spec(key: Sexp, alist: Sexp) -> Result<Option<Sexp>, Fault>
    decreases alist,
{
    match alist {
        Sexp::Empty => Ok(None),
        Sexp::Pair(entry, rest) => match *entry {
            Sexp::Pair(k, v) => if !(*k is Symbol) {
                Err(Fault::IllFormedEnvironment)
            } else if *k == key {
                Ok(Some(*v))
            } else {
                assocv_spec(key, *rest)
            },
            _ => Err(Fault::IllFormedEnvironment),
        },
        _ => Err(Fault::IllFormedEnvironment),
    }
}

/// What `name` stands for in `env`: its value, or that it is unbound.
pub open spec fn lookup_spec(name: Sexp, env: Sexp) -> SpecOutcome {
    match assocv_spec(name, env) {
        Ok(Some(value)) => Ok(Ok(value)),
        Ok(None) => Ok(Err(Failure::Unbound(name))),
        Err(fault) => Err(fault),
    }
}

/// Binds the parameters `ll` to the values `vs` in front of `env`, walking
/// both in step. `oll` and `ovs` are the two lists as the caller gave them,
/// which is what an arity error reports.
pub open spec fn bind_spec(oll: Sexp, ovs: Sexp, ll: Sexp, vs: Sexp, env: Sexp) -> SpecOutcome
    decreases ll,
{
    match ll {
        Sexp::Empty => match vs {
            Sexp::Empty => Ok(Ok(env)),
            _ => Ok(Err(Failure::TooManyArgs(oll, ovs))),
        },
        Sexp::Pair(name, rest) => if !(*name is Symbol) {
            Err(Fault::BadLambdaList)
        } else {
            match vs {
                Sexp::Pair(v, more) => bind_spec(
                    oll,
                    ovs,
                    *rest,
                    *more,
                    acons_spec(*name, *v, env),
                ),
                _ => Ok(Err(Failure::NotEnoughArgs(oll, ovs))),
            }
        },
        Sexp::Symbol(_) => Ok(Ok(acons_spec(ll, vs, env))),
        _ => Err(Fault::BadLambdaList),
    }
}

/// The environment `env` extended by binding the parameters `lambda_list`
/// to `values`.
pub open spec fn augment_spec(env: Sexp, lambda_list: Sexp, values: Sexp) -> SpecOutcome {
    bind_spec(lambda_list, values, lambda_list, values, env)
}

/// The outcome of evaluating `form` in `env` with at most `depth` steps
/// nested in each other. A step is the evaluation of a form or of a list
/// of forms, the application of a combiner, or an `if`. A pair is a call:
/// its first field is evaluated to a combiner, which is applied to the
/// rest. A symbol is looked up. Everything else evaluates to itself.
pub open spec fn eval_spec(form: Sexp, env: Sexp, depth: nat) -> SpecOutcome
    decreases depth, 0nat,
{
    if depth == 0 {
        Err(Fault::DepthExceeded)
    } else {
        match form {
            Sexp::Pair(op, args) => match eval_spec(*op, env, (depth - 1) as nat) {
                Ok(Ok(combiner)) => combine_spec(combiner, *args, env, (depth - 1) as nat),
                other => other,
            },
            Sexp::Symbol(_) => lookup_spec(form, env),
            _ => Ok(Ok(form)),
        }
    }
}

/// The forms of a list evaluated one by one from the left, as a new list.
/// The first outcome that is not a value ends it.
pub open spec fn evlis_spec(forms: Sexp, env: Sexp, depth: nat) -> SpecOutcome
    decreases depth, 0nat,
{
    if depth == 0 {
        Err(Fault::DepthExceeded)
    } else {
        match forms {
            Sexp::Pair(first, rest) => match eval_spec(*first, env, (depth - 1) as nat) {
                Ok(Ok(value)) => match evlis_spec(*rest, env, (depth - 1) as nat) {
                    Ok(Ok(values)) => Ok(Ok(Sexp::Pair(Box::new(value), Box::new(values)))),
                    other => other,
                },
                other => other,
            },
            Sexp::Empty => Ok(Ok(Sexp::Empty)),
            _ => Ok(Err(Failure::ImproperList(forms))),
        }
    }
}

/// The outcome of applying `combiner` to the operands `combinand`, as
/// written, in the environment `env` of the call.
pub open spec fn combine_spec(combiner: Sexp, combinand: Sexp, env: Sexp, depth: nat) -> SpecOutcome
    decreases depth, 0nat,
{
    if depth == 0 {
        Err(Fault::DepthExceeded)
    } else {
        match combiner {
            Sexp::Applicative(ll, fun) => match evlis_spec(combinand, env, (depth - 1) as nat) {
                Ok(Ok(args)) => Ok(subr_spec(fun, *ll, args)),
                other => other,
            },
            Sexp::Operative(ll, fun) => fsubr_spec(fun, *ll, combinand, env, (depth - 1) as nat),
            Sexp::Closure { body, params, env: captured } => match evlis_spec(
                combinand,
                env,
                (depth - 1) as nat,
            ) {
                Ok(Ok(args)) => match augment_spec(*captured, *params, args) {
                    Ok(Ok(extended)) => eval_spec(*body, extended, (depth - 1) as nat),
                    other => other,
                },
                other => other,
            },
            _ => Ok(Err(Failure::NotCombiner(combiner))),
        }
    }
}

/// The value of what a search of an association list found.
pub open spec fn found_view(r: Result<Option<ObjP>, Fault>) -> Result<Option<Sexp>, Fault> {
    match r {
        Ok(Some(v)) => Ok(Some(v@)),
        Ok(None) => Ok(None),
        Err(fault) => Err(fault),
    }
}

/// Finds the value that `alist` gives `key`.
pub fn assocv(key: &ObjP, alist: &ObjP) -> (r: Result<Option<ObjP>, Fault>)
    ensures
        found_view(r) == assocv_spec(key@, alist@),
{
    let mut rest: &ObjP = alist;
    loop
        invariant
            assocv_spec(key@, rest@) == assocv_spec(key@, alist@),
        decreases rest@,
    {
        proof {
            lemma_parts_are_smaller(rest@);
        }
        match rest.borrow() {
            Object::Null => {
                return Ok(None);
            },
            Object::Cons { car, cdr } => match car.borrow() {
                Object::Cons { car: caar, cdr: cdar } => {
                    match caar.borrow() {
                        Object::Symbol(_) => {},
                        _ => {
                            return Err(Fault::IllFormedEnvironment);
                        },
                    }
                    if key.same(caar) {
                        return Ok(Some(cdar.clone()));
                    }
                    rest = cdr;
                },
                _ => {
                    return Err(Fault::IllFormedEnvironment);
                },
            },
            _ => {
                return Err(Fault::IllFormedEnvironment);
            },
        }
    }
}

/// Looks `name` up in `env`.
pub fn lookup(name: &ObjP, env: &ObjP) -> (r: Outcome)
    ensures
        outcome_view(r) == lookup_spec(name@, env@),
{
    match assocv(name, env) {
        Ok(Some(value)) => Ok(Ok(value)),
        Ok(None) => Ok(Err(EvalError::Unbound(name.clone()))),
        Err(fault) => Err(fault),
    }
}

/// Evaluates the forms of a list from the left and lists their values.
pub fn evlis(forms: &ObjP, env: &ObjP, depth: u64) -> (r: Outcome)
    ensures
        outcome_view(r) == evlis_spec(forms@, env@, depth as nat),
    decreases depth, 0nat,
{
    if depth == 0 {
        return Err(Fault::DepthExceeded);
    }
    match forms.borrow() {
        Object::Cons { car, cdr } => match eval_bounded(car, env, depth - 1) {
            Ok(Ok(value)) => match evlis(cdr, env, depth - 1) {
                Ok(Ok(values)) => Ok(Ok(cons(&value, &values))),
                other => other,
            },
            other => other,
        },
        Object::Null => Ok(Ok(forms.clone())),
        _ => Ok(Err(EvalError::ImproperList(forms.clone()))),
    }
}

/// Applies `combiner` to the operands `combinand` in the environment `env`
/// of the call.
pub fn combine(combiner: &ObjP, combinand: &ObjP, env: &ObjP, depth: u64) -> (r: Outcome)
    ensures
        outcome_view(r) == combine_spec(combiner@, combinand@, env@, depth as nat),
    decreases depth, 0nat,
{
    if depth == 0 {
        return Err(Fault::DepthExceeded);
    }
    match combiner.borrow() {
        Object::Subr(ll, fun) => match evlis(combinand, env, depth - 1) {
            Ok(Ok(args)) => Ok(fun.call(ll, &args)),
            other => other,
        },
        Object::Fsubr(ll, fun) => fun.call(ll, combinand, env, depth - 1),
        Object::Expr { form, lambda_list, env: captured } => match evlis(
            combinand,
            env,
            depth - 1,
        ) {
            Ok(Ok(args)) => match augment(captured, lambda_list, &args) {
                Ok(Ok(extended)) => eval_bounded(form, &extended, depth - 1),
                other => other,
            },
            other => other,
        },
        _ => Ok(Err(EvalError::NotCombiner(combiner.clone()))),
    }
}

/// Extends `env` by binding the parameters `lambda_list` to `values`.
pub fn augment(env: &ObjP, lambda_list: &ObjP, values: &ObjP) -> (r: Outcome)
    ensures
        outcome_view(r) == augment_spec(env@, lambda_list@, values@),
{
    let mut ll: &ObjP = lambda_list;
    let mut vs: &ObjP = values;
    let mut extended: ObjP = env.clone();
    loop
        invariant
            bind_spec(lambda_list@, values@, ll@, vs@, extended@) == augment_spec(
                env@,
                lambda_list@,
                values@,
            ),
        decreases ll@,
    {
        proof {
            lemma_parts_are_smaller(ll@);
        }
        match ll.borrow() {
            Object::Null => match vs.borrow() {
                Object::Null => {
                    return Ok(Ok(extended));
                },
                _ => {
                    return Ok(
                        Err(EvalError::TooManyArgs(lambda_list.clone(), values.clone())),
                    );
                },
            },
            Object::Cons { car: name, cdr: names } => {
                match name.borrow() {
                    Object::Symbol(_) => {},
                    _ => {
                        return Err(Fault::BadLambdaList);
                    },
                }
                match vs.borrow() {
                    Object::Cons { car: value, cdr: more } => {
                        extended = acons(name, value, &extended);
                        ll = names;
                        vs = more;
                    },
                    _ => {
                        return Ok(
                            Err(EvalError::NotEnoughArgs(lambda_list.clone(), values.clone())),
                        );
                    },
                }
            },
            Object::Symbol(_) => {
                return Ok(Ok(acons(ll, vs, &extended)));
            },
            _ => {
                return Err(Fault::BadLambdaList);
            },
        }
    }
}

/// Evaluates `form` in `env`, going at most `depth` steps deep.
pub fn eval_bounded(form: &ObjP, env: &ObjP, depth: u64) -> (r: Outcome)
    ensures
        outcome_view(r) == eval_spec(form@, env@, depth as nat),
    decreases depth, 0nat,
{
    if depth == 0 {
        return Err(Fault::DepthExceeded);
    }
    match form.borrow() {
        Object::Cons { car: op, cdr: args } => match eval_bounded(op, env, depth - 1) {
            Ok(Ok(combiner)) => combine(&combiner, args, env, depth - 1),
            other => other,
        },
        Object::Symbol(_) => lookup(form, env),
        _ => Ok(Ok(form.clone())),
    }
}

/// The deepest that [`eval`] lets an evaluation nest: more than any call
/// stack holds.
pub const MAX_DEPTH: u64 = 0xffff_ffff_ffff_ffff;

/// Evaluates `form` in `env`.
///
/// The evaluation must come to an end without a [`Fault`]; use
/// [`eval_bounded`] where that is not known. A caller that breaks this
/// requirement unseen gets a panic.
pub fn eval(form: &ObjP, env: &ObjP) -> (r: EvalResult)
    requires
        eval_spec(form@, env@, MAX_DEPTH as nat) is Ok,
    ensures
        Ok::<Result<Sexp, Failure>, Fault>(result_view(r)) == eval_spec(
            form@,
            env@,
            MAX_DEPTH as nat,
        ),
        !(form@ is Pair) && !(form@ is Symbol) ==> result_view(r) == Ok::<Sexp, Failure>(form@),
{
    match eval_bounded(form, env, MAX_DEPTH) {
        Ok(result) => result,
        Err(_) => unreached(),
    }
}

/// An environment as evaluation builds it: a list of entries, each a pair
/// with a symbol in front.
pub open spec fn is_environment(env: Sexp) -> bool
    decreases env,
{
    match env {
        Sexp::Empty => true,
        Sexp::Pair(entry, rest) => {
            &&& *entry matches Sexp::Pair(key, _)
            &&& *key is Symbol
            &&& is_environment(*rest)
        },
        _ => false,
    }
}

/// A search of an environment finds a value or finds none; it never ends
/// in a fault.
pub proof fn lemma_environment_is_searched_without_fault(key: Sexp, env: Sexp)
    requires
        is_environment(env),
    ensures
        assocv_spec(key, env) is Ok,
    decreases env,
{
    match env {
        Sexp::Pair(entry, rest) => {
            lemma_parts_are_smaller(env);
            lemma_environment_is_searched_without_fault(key, *rest);
        },
        _ => {},
    }
}

/// Binding parameters in front of an environment gives an environment.
pub proof fn lemma_bind_keeps_environment(oll: Sexp, ovs: Sexp, ll: Sexp, vs: Sexp, env: Sexp)
    requires
        is_environment(env),
    ensures
        bind_spec(oll, ovs, ll, vs, env) matches Ok(Ok(extended)) ==> is_environment(extended),
    decreases ll,
{
    match ll {
        Sexp::Pair(name, rest) => {
            lemma_parts_are_smaller(ll);
            if *name is Symbol {
                match vs {
                    Sexp::Pair(v, more) => {
                        lemma_bind_keeps_environment(
                            oll,
                            ovs,
                            *rest,
                            *more,
                            acons_spec(*name, *v, env),
                        );
                    },
                    _ => {},
                }
            }
        },
        _ => {},
    }
}

/// An environment extended by [`augment`] is an environment.
pub proof fn lemma_augment_keeps_environment(env: Sexp, lambda_list: Sexp, values: Sexp)
    requires
        is_environment(env),
    ensures
        augment_spec(env, lambda_list, values) matches Ok(Ok(extended)) ==> is_environment(
            extended,
        ),
{
    lemma_bind_keeps_environment(lambda_list, values, lambda_list, values, env);
}

/// A parameter list that is one bare symbol takes all the arguments: the
/// symbol is bound to the whole list of them.
pub proof fn lemma_rest_parameter_takes_all(env: Sexp, name: Seq<char>, values: Sexp)
    ensures
        augment_spec(env, Sexp::Symbol(name), values) == Ok::<Result<Sexp, Failure>, Fault>(
            Ok(acons_spec(Sexp::Symbol(name), values, env)),
        ),
{
}

/// A symbol stands for what the entry in front binds it to, whatever comes
/// after that entry.
pub proof fn lemma_lookup_front(name: Seq<char>, value: Sexp, env: Sexp)
    ensures
        lookup_spec(Sexp::Symbol(name), acons_spec(Sexp::Symbol(name), value, env)) == Ok::<
            Result<Sexp, Failure>,
            Fault,
        >(Ok(value)),
{
}

/// An entry for another symbol changes nothing for this one.
pub proof fn lemma_lookup_skips_other_names(name: Sexp, other: Seq<char>, value: Sexp, env: Sexp)
    requires
        name != Sexp::Symbol(other),
    ensures
        lookup_spec(name, acons_spec(Sexp::Symbol(other), value, env)) == lookup_spec(name, env),
{
}

/// Shadowing: where a symbol is bound twice, evaluating it gives the value
/// that was bound later, which stands in front.
pub proof fn lemma_later_binding_shadows(
    name: Seq<char>,
    earlier: Sexp,
    later: Sexp,
    env: Sexp,
    depth: nat,
)
    requires
        depth > 0,
    ensures
        eval_spec(
            Sexp::Symbol(name),
            acons_spec(Sexp::Symbol(name), later, acons_spec(Sexp::Symbol(name), earlier, env)),
            depth,
        ) == Ok::<Result<Sexp, Failure>, Fault>(Ok(later)),
{
}

/// Whatever is neither a pair nor a symbol evaluates to itself, in every
/// environment.
pub proof fn lemma_self_evaluating(form: Sexp, env: Sexp, depth: nat)
    requires
        depth > 0,
        !(form is Pair),
        !(form is Symbol),
    ensures
        eval_spec(form, env, depth) == Ok::<Result<Sexp, Failure>, Fault>(Ok(form)),
{
}

/// A symbol that the environment does not bind is an error, not a value.
pub proof fn lemma_unbound_symbol(name: Seq<char>, env: Sexp, depth: nat)
    requires
        depth > 0,
        assocv_spec(Sexp::Symbol(name), env) == Ok::<Option<Sexp>, Fault>(None),
    ensures
        eval_spec(Sexp::Symbol(name), env, depth) == Ok::<Result<Sexp, Failure>, Fault>(
            Err(Failure::Unbound(Sexp::Symbol(name))),
        ),
{
}

/// What is no combiner cannot be applied, whatever the operands are: they
/// are not even evaluated.
pub proof fn lemma_not_a_combiner(value: Sexp, combinand: Sexp, env: Sexp, depth: nat)
    requires
        depth > 0,
        !(value is Applicative),
        !(value is Operative),
        !(value is Closure),
    ensures
        combine_spec(value, combinand, env, depth) == Ok::<Result<Sexp, Failure>, Fault>(
            Err(Failure::NotCombiner(value)),
        ),
{
}

/// Lexical scope: a closure evaluates its body in the environment that it
/// captured, extended by its parameters. The environment of the call
/// serves to evaluate the operands and has no other part in the outcome.
pub proof fn lemma_closure_runs_in_captured_environment(
    body: Sexp,
    params: Sexp,
    captured: Sexp,
    combinand: Sexp,
    env: Sexp,
    depth: nat,
    args: Sexp,
    extended: Sexp,
)
    requires
        depth > 0,
        evlis_spec(combinand, env, (depth - 1) as nat) == Ok::<Result<Sexp, Failure>, Fault>(
            Ok(args),
        ),
        augment_spec(captured, params, args) == Ok::<Result<Sexp, Failure>, Fault>(Ok(extended)),
    ensures
        combine_spec(
            Sexp::Closure {
                body: Box::new(body),
                params: Box::new(params),
                env: Box::new(captured),
            },
            combinand,
            env,
            depth,
        ) == eval_spec(body, extended, (depth - 1) as nat),
{
}

} // verus!
