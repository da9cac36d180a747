//! The bound on the depth of an evaluation is only a bound: an evaluation
//! that ends within it ends the same way within every larger one.

use crate::eval::{augment_spec, combine_spec, eval_spec, evlis_spec};
use crate::ground::{args3_spec, fif_spec, fsubr_spec};
use crate::objects::{Failure, Fault, FsubrFun, Sexp, SpecOutcome};
use vstd::prelude::*;

verus! {

/// Whether an outcome is anything but the depth bound being reached.
pub open spec fn finished(outcome: SpecOutcome) -> bool {
    outcome != Err::<Result<Sexp, Failure>, Fault>(Fault::DepthExceeded)
}

/// An evaluation that ends within `depth` ends the same way within any
/// larger bound.
pub proof fn lemma_eval_deeper(form: Sexp, env: Sexp, depth: nat, deeper: nat)
    requires
        depth <= deeper,
        finished(eval_spec(form, env, depth)),
    ensures
        eval_spec(form, env, deeper) == eval_spec(form, env, depth),
    decreases depth, 0nat,
{
    match form {
        Sexp::Pair(op, args) => {
            let d = (depth - 1) as nat;
            let e = (deeper - 1) as nat;
            lemma_eval_deeper(*op, env, d, e);
            match eval_spec(*op, env, d) {
                Ok(Ok(combiner)) => {
                    lemma_combine_deeper(combiner, *args, env, d, e);
                },
                _ => {},
            }
        },
        _ => {},
    }
}

/// The same of the evaluation of a list of forms.
pub proof fn lemma_evlis_deeper(forms: Sexp, env: Sexp, depth: nat, deeper: nat)
    requires
        depth <= deeper,
        finished(evlis_spec(forms, env, depth)),
    ensures
        evlis_spec(forms, env, deeper) == evlis_spec(forms, env, depth),
    decreases depth, 0nat,
{
    match forms {
        Sexp::Pair(first, rest) => {
            let d = (depth - 1) as nat;
            let e = (deeper - 1) as nat;
            lemma_eval_deeper(*first, env, d, e);
            match eval_spec(*first, env, d) {
                Ok(Ok(_)) => {
                    lemma_evlis_deeper(*rest, env, d, e);
                },
                _ => {},
            }
        },
        _ => {},
    }
}

/// The same of the application of a combiner.
pub proof fn lemma_combine_deeper(
    combiner: Sexp,
    combinand: Sexp,
    env: Sexp,
    depth: nat,
    deeper: nat,
)
    requires
        depth <= deeper,
        finished(combine_spec(combiner, combinand, env, depth)),
    ensures
        combine_spec(combiner, combinand, env, deeper) == combine_spec(
            combiner,
            combinand,
            env,
            depth,
        ),
    decreases depth, 0nat,
{
    let d = (depth - 1) as nat;
    let e = (deeper - 1) as nat;
    match combiner {
        Sexp::Applicative(_, _) => {
            lemma_evlis_deeper(combinand, env, d, e);
        },
        Sexp::Operative(ll, fun) => {
            lemma_fsubr_deeper(fun, *ll, combinand, env, d, e);
        },
        Sexp::Closure { body, params, env: captured } => {
            lemma_evlis_deeper(combinand, env, d, e);
            match evlis_spec(combinand, env, d) {
                Ok(Ok(args)) => match augment_spec(*captured, *params, args) {
                    Ok(Ok(extended)) => {
                        lemma_eval_deeper(*body, extended, d, e);
                    },
                    _ => {},
                },
                _ => {},
            }
        },
        _ => {},
    }
}

/// The same of `if`.
pub proof fn lemma_fif_deeper(ll: Sexp, args: Sexp, env: Sexp, depth: nat, deeper: nat)
    requires
        depth <= deeper,
        finished(fif_spec(ll, args, env, depth)),
    ensures
        fif_spec(ll, args, env, deeper) == fif_spec(ll, args, env, depth),
    decreases depth, 0nat,
{
    let d = (depth - 1) as nat;
    let e = (deeper - 1) as nat;
    match args3_spec(ll, args) {
        Ok((condition, then, otherwise)) => {
            lemma_eval_deeper(condition, env, d, e);
            match eval_spec(condition, env, d) {
                Ok(Ok(Sexp::Boolean(t))) => {
                    lemma_eval_deeper(
                        if t {
                            then
                        } else {
                            otherwise
                        },
                        env,
                        d,
                        e,
                    );
                },
                _ => {},
            }
        },
        Err(_) => {},
    }
}

/// The same of every operative primitive.
pub proof fn lemma_fsubr_deeper(
    fun: FsubrFun,
    ll: Sexp,
    args: Sexp,
    env: Sexp,
    depth: nat,
    deeper: nat,
)
    requires
        depth <= deeper,
        finished(fsubr_spec(fun, ll, args, env, depth)),
    ensures
        fsubr_spec(fun, ll, args, env, deeper) == fsubr_spec(fun, ll, args, env, depth),
    decreases depth, 1nat,
{
    match fun {
        FsubrFun::If => {
            lemma_fif_deeper(ll, args, env, depth, deeper);
        },
        _ => {},
    }
}

/// Whether evaluating `form` in `env` comes to `result`, however deep it
/// has to go for that.
pub open spec fn evaluates_to(form: Sexp, env: Sexp, result: Result<Sexp, Failure>) -> bool {
    exists|depth: nat| eval_spec(form, env, depth) == Ok::<Result<Sexp, Failure>, Fault>(result)
}

/// Evaluation is a function: a form comes to at most one result in an
/// environment.
pub proof fn lemma_evaluation_is_unique(
    form: Sexp,
    env: Sexp,
    one: Result<Sexp, Failure>,
    other: Result<Sexp, Failure>,
)
    requires
        evaluates_to(form, env, one),
        evaluates_to(form, env, other),
    ensures
        one == other,
{
    let d1 = choose|depth: nat|
        eval_spec(form, env, depth) == Ok::<Result<Sexp, Failure>, Fault>(one);
    let d2 = choose|depth: nat|
        eval_spec(form, env, depth) == Ok::<Result<Sexp, Failure>, Fault>(other);
    if d1 <= d2 {
        lemma_eval_deeper(form, env, d1, d2);
    } else {
        lemma_eval_deeper(form, env, d2, d1);
    }
}

} // verus!
