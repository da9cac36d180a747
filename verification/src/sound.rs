//! Environments stay environments: evaluation that starts from well-formed
//! data never meets an ill-formed environment.

use crate::eval::{
    assocv_spec, augment_spec, bind_spec, combine_spec, eval_spec, evlis_spec, is_environment,
    lemma_bind_keeps_environment, lemma_environment_is_searched_without_fault,
};
use crate::ground::{
    after, args3_spec, fif_spec, fsubr_spec, ground_spec, lemma_ground_is_environment, nth,
    subr_spec,
};
use crate::objects::{
    acons_spec, lemma_parts_are_smaller, Failure, Fault, FsubrFun, Sexp, SpecOutcome, SubrFun,
};
use vstd::prelude::*;

verus! {

impl Sexp {
    /// A value is sound when every closure in it, however deep, has
    /// captured an environment.
    pub open spec fn is_sound(self) -> bool
        decreases self,
    {
        match self {
            Sexp::Pair(first, rest) => first.is_sound() && rest.is_sound(),
            Sexp::Applicative(ll, _) => ll.is_sound(),
            Sexp::Operative(ll, _) => ll.is_sound(),
            Sexp::Closure { body, params, env } => {
                &&& body.is_sound()
                &&& params.is_sound()
                &&& env.is_sound()
                &&& is_environment(*env)
            },
            _ => true,
        }
    }
}

/// An outcome as sound data leads to it: not an ill-formed environment,
/// and a sound value where it is a value.
pub open spec fn sound_outcome(outcome: SpecOutcome) -> bool {
    match outcome {
        Ok(Ok(value)) => value.is_sound(),
        Ok(Err(_)) => true,
        Err(fault) => fault != Fault::IllFormedEnvironment,
    }
}

/// What a sound environment binds a name to is sound.
pub proof fn lemma_sound_lookup(key: Sexp, env: Sexp)
    requires
        env.is_sound(),
    ensures
        assocv_spec(key, env) matches Ok(Some(value)) ==> value.is_sound(),
    decreases env,
{
    reveal_with_fuel(Sexp::is_sound, 2);
    match env {
        Sexp::Pair(entry, rest) => {
            lemma_parts_are_smaller(env);
            lemma_sound_lookup(key, *rest);
        },
        _ => {},
    }
}

/// Binding sound values in front of a sound environment gives a sound
/// environment, or fails for another reason than the environment.
pub proof fn lemma_sound_bind(oll: Sexp, ovs: Sexp, ll: Sexp, vs: Sexp, env: Sexp)
    requires
        env.is_sound(),
        is_environment(env),
        ll.is_sound(),
        vs.is_sound(),
    ensures
        sound_outcome(bind_spec(oll, ovs, ll, vs, env)),
        bind_spec(oll, ovs, ll, vs, env) matches Ok(Ok(extended)) ==> is_environment(extended),
    decreases ll,
{
    reveal_with_fuel(Sexp::is_sound, 3);
    lemma_bind_keeps_environment(oll, ovs, ll, vs, env);
    match ll {
        Sexp::Pair(name, rest) => {
            lemma_parts_are_smaller(ll);
            if *name is Symbol {
                match vs {
                    Sexp::Pair(v, more) => {
                        lemma_sound_bind(oll, ovs, *rest, *more, acons_spec(*name, *v, env));
                    },
                    _ => {},
                }
            }
        },
        _ => {},
    }
}

/// The elements of a sound list are sound, and so is what is left
/// after any number of them.
pub proof fn lemma_sound_elements(x: Sexp, n: nat)
    requires
        x.is_sound(),
    ensures
        after(x, n).is_sound(),
        nth(x, n).is_sound(),
    decreases n,
{
    if n > 0 {
        match x {
            Sexp::Pair(_, rest) => {
                lemma_sound_elements(*rest, (n - 1) as nat);
            },
            _ => {},
        }
    }
}

/// An applicative primitive makes sound values of sound arguments.
pub proof fn lemma_sound_subr(fun: SubrFun, ll: Sexp, args: Sexp)
    requires
        args.is_sound(),
    ensures
        subr_spec(fun, ll, args) matches Ok(value) ==> value.is_sound(),
{
    lemma_sound_elements(args, 0);
    lemma_sound_elements(args, 1);
}

/// Evaluating a sound form in a sound environment never meets an
/// ill-formed environment, and gives a sound value where it gives one.
pub proof fn lemma_sound_eval(form: Sexp, env: Sexp, depth: nat)
    requires
        form.is_sound(),
        env.is_sound(),
        is_environment(env),
    ensures
        sound_outcome(eval_spec(form, env, depth)),
    decreases depth, 0nat,
{
    if depth > 0 {
        let d = (depth - 1) as nat;
        match form {
            Sexp::Pair(op, args) => {
                lemma_sound_eval(*op, env, d);
                match eval_spec(*op, env, d) {
                    Ok(Ok(combiner)) => {
                        lemma_sound_combine(combiner, *args, env, d);
                    },
                    _ => {},
                }
            },
            Sexp::Symbol(_) => {
                lemma_environment_is_searched_without_fault(form, env);
                lemma_sound_lookup(form, env);
            },
            _ => {},
        }
    }
}

/// The same of the evaluation of a list of forms.
pub proof fn lemma_sound_evlis(forms: Sexp, env: Sexp, depth: nat)
    requires
        forms.is_sound(),
        env.is_sound(),
        is_environment(env),
    ensures
        sound_outcome(evlis_spec(forms, env, depth)),
    decreases depth, 0nat,
{
    if depth > 0 {
        let d = (depth - 1) as nat;
        match forms {
            Sexp::Pair(first, rest) => {
                lemma_sound_eval(*first, env, d);
                lemma_sound_evlis(*rest, env, d);
            },
            _ => {},
        }
    }
}

/// The same of the application of a sound combiner to sound operands.
pub proof fn lemma_sound_combine(combiner: Sexp, combinand: Sexp, env: Sexp, depth: nat)
    requires
        combiner.is_sound(),
        combinand.is_sound(),
        env.is_sound(),
        is_environment(env),
    ensures
        sound_outcome(combine_spec(combiner, combinand, env, depth)),
    decreases depth, 0nat,
{
    if depth > 0 {
        let d = (depth - 1) as nat;
        match combiner {
            Sexp::Applicative(ll, fun) => {
                lemma_sound_evlis(combinand, env, d);
                match evlis_spec(combinand, env, d) {
                    Ok(Ok(args)) => {
                        lemma_sound_subr(fun, *ll, args);
                    },
                    _ => {},
                }
            },
            Sexp::Operative(ll, fun) => {
                lemma_sound_fsubr(fun, *ll, combinand, env, d);
            },
            Sexp::Closure { body, params, env: captured } => {
                lemma_sound_evlis(combinand, env, d);
                match evlis_spec(combinand, env, d) {
                    Ok(Ok(args)) => {
                        lemma_sound_bind(*params, args, *params, args, *captured);
                        match augment_spec(*captured, *params, args) {
                            Ok(Ok(extended)) => {
                                lemma_sound_eval(*body, extended, d);
                            },
                            _ => {},
                        }
                    },
                    _ => {},
                }
            },
            _ => {},
        }
    }
}

/// The same of `if`.
pub proof fn lemma_sound_fif(ll: Sexp, args: Sexp, env: Sexp, depth: nat)
    requires
        args.is_sound(),
        env.is_sound(),
        is_environment(env),
    ensures
        sound_outcome(fif_spec(ll, args, env, depth)),
    decreases depth, 0nat,
{
    lemma_sound_elements(args, 0);
    lemma_sound_elements(args, 1);
    lemma_sound_elements(args, 2);
    if depth > 0 {
        let d = (depth - 1) as nat;
        match args3_spec(ll, args) {
            Ok((condition, then, otherwise)) => {
                lemma_sound_eval(condition, env, d);
                lemma_sound_eval(then, env, d);
                lemma_sound_eval(otherwise, env, d);
            },
            Err(_) => {},
        }
    }
}

/// The same of every operative primitive.
pub proof fn lemma_sound_fsubr(fun: FsubrFun, ll: Sexp, args: Sexp, env: Sexp, depth: nat)
    requires
        args.is_sound(),
        env.is_sound(),
        is_environment(env),
    ensures
        sound_outcome(fsubr_spec(fun, ll, args, env, depth)),
    decreases depth, 1nat,
{
    lemma_sound_elements(args, 0);
    lemma_sound_elements(args, 1);
    match fun {
        FsubrFun::If => {
            lemma_sound_fif(ll, args, env, depth);
        },
        _ => {},
    }
}

/// The ground environment is sound.
pub proof fn lemma_ground_is_sound()
    ensures
        ground_spec().is_sound(),
        is_environment(ground_spec()),
{
    reveal_with_fuel(Sexp::is_sound, 12);
    lemma_ground_is_environment();
}

/// A value that holds no closure is sound; so is every value that was read.
pub proof fn lemma_datum_is_sound(x: Sexp)
    requires
        x.is_datum(),
    ensures
        x.is_sound(),
    decreases x,
{
    match x {
        Sexp::Pair(first, rest) => {
            lemma_parts_are_smaller(x);
            lemma_datum_is_sound(*first);
            lemma_datum_is_sound(*rest);
        },
        _ => {},
    }
}

/// Evaluating what was read in the ground environment never finds an
/// environment ill-formed.
pub proof fn lemma_ground_evaluation_keeps_environments(form: Sexp, depth: nat)
    requires
        form.is_datum(),
    ensures
        eval_spec(form, ground_spec(), depth) != Err::<Result<Sexp, Failure>, Fault>(
            Fault::IllFormedEnvironment,
        ),
{
    lemma_datum_is_sound(form);
    lemma_ground_is_sound();
    lemma_sound_eval(form, ground_spec(), depth);
}

} // verus!
