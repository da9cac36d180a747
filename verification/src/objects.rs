//! The object model: tagged values built from shared, immutable pair cells.

use std::rc::Rc;
use vstd::prelude::*;

verus! {

/// The native applicative primitives. An applicative receives its operands
/// already evaluated.
#[derive(Clone, Copy, Debug, PartialEq, Eq, Structural)]
pub enum SubrFun {
    Cons,
    Car,
    Cdr,
    Eqv,
}

/// The native operative primitives. An operative receives its operands as
/// written, together with the environment of the call.
#[derive(Clone, Copy, Debug, PartialEq, Eq, Structural)]
pub enum FsubrFun {
    If,
    Quote,
    Lambda,
}

/// The mathematical value of an object. Contracts speak of these values;
/// two objects are equal when their values are.
pub enum Sexp {
    /// An ordered cell of two values.
    Pair(Box<Sexp>, Box<Sexp>),
    /// The empty list.
    Empty,
    Integer(i64),
    /// A symbol, known by the characters of its name.
    Symbol(Seq<char>),
    Boolean(bool),
    /// A native primitive that takes evaluated operands: its parameter list
    /// and the function it runs.
    Applicative(Box<Sexp>, SubrFun),
    /// A native primitive that takes its operands unevaluated.
    Operative(Box<Sexp>, FsubrFun),
    /// A combiner made by `lambda`.
    Closure { body: Box<Sexp>, params: Box<Sexp>, env: Box<Sexp> },
}

/// A value of the language.
#[derive(Debug)]
pub enum Object {
    /// A pair.
    Cons { car: ObjP, cdr: ObjP },
    /// The empty list.
    Null,
    /// An integer.
    Fixnum(i64),
    /// A symbol, with its name.
    Symbol(String),
    Boolean(bool),
    /// An applicative primitive: its parameter list and its function.
    Subr(ObjP, SubrFun),
    /// An operative primitive: its parameter list and its function.
    Fsubr(ObjP, FsubrFun),
    /// A closure: its body, its parameter list and the environment that it
    /// was made in.
    Expr { form: ObjP, lambda_list: ObjP, env: ObjP },
}

/// A handle on an object. Handles are cheap to copy: all copies share one
/// object, which never changes once built.
#[derive(Debug)]
pub struct ObjP {
    object: Rc<Object>,
}

impl View for Object {
    type V = Sexp;

    open spec fn view(&self) -> Sexp
        decreases self,
    {
        match self {
            Object::Cons { car, cdr } => Sexp::Pair(Box::new(car@), Box::new(cdr@)),
            Object::Null => Sexp::Empty,
            Object::Fixnum(i) => Sexp::Integer(*i),
            Object::Symbol(name) => Sexp::Symbol(name@),
            Object::Boolean(b) => Sexp::Boolean(*b),
            Object::Subr(ll, fun) => Sexp::Applicative(Box::new(ll@), *fun),
            Object::Fsubr(ll, fun) => Sexp::Operative(Box::new(ll@), *fun),
            Object::Expr { form, lambda_list, env } => Sexp::Closure {
                body: Box::new(form@),
                params: Box::new(lambda_list@),
                env: Box::new(env@),
            },
        }
    }
}

impl View for ObjP {
    type V = Sexp;

    closed spec fn view(&self) -> Sexp
        decreases self,
    {
        (*self.object)@
    }
}

/// Every part of a value is structurally smaller than the value, which is
/// what recursion over values descends on.
pub proof fn lemma_parts_are_smaller(x: Sexp)
    ensures
        x matches Sexp::Pair(a, d) ==> decreases_to!(x => *a) && decreases_to!(x => *d),
        x matches Sexp::Applicative(ll, _) ==> decreases_to!(x => *ll),
        x matches Sexp::Operative(ll, _) ==> decreases_to!(x => *ll),
        x matches Sexp::Closure { body, params, env } ==> decreases_to!(x => *body)
            && decreases_to!(x => *params) && decreases_to!(x => *env),
{
    match x {
        Sexp::Pair(a, d) => {
            assert(*x->Pair_0 == *a && *x->Pair_1 == *d);
        },
        Sexp::Applicative(ll, _) => {
            assert(*x->Applicative_0 == *ll);
        },
        Sexp::Operative(ll, _) => {
            assert(*x->Operative_0 == *ll);
        },
        Sexp::Closure { body, params, env } => {
            assert(*x->body == *body && *x->params == *params && *x->env == *env);
        },
        _ => {},
    }
}

/// `Rc::clone`: a second pointer to the same allocation. What it points to
/// is the object the first one points to.
#[verifier::external_body]
fn share(object: &Rc<Object>) -> (r: Rc<Object>)
    ensures
        r == *object,
{
    Rc::clone(object)
}

impl ObjP {
    /// Puts an object behind a fresh handle.
    pub fn new(o: Object) -> (p: Self)
        ensures
            p@ == o@,
    {
        Self { object: Rc::new(o) }
    }

    /// The object behind the handle.
    pub fn borrow(&self) -> (o: &Object)
        ensures
            o@ == self@,
    {
        &*self.object
    }

    /// Structural equality: whether two handles stand for the same value.
    pub fn same(&self, other: &ObjP) -> (b: bool)
        ensures
            b == (self@ == other@),
    {
        self.borrow().same(other.borrow())
    }
}

impl Object {
    /// Structural equality: whether two objects are the same value.
    /// Combiners are compared part by part, like everything else.
    pub fn same(&self, other: &Object) -> (b: bool)
        ensures
            b == (self@ == other@),
        decreases self@,
    {
        proof {
            lemma_parts_are_smaller(self@);
        }
        match (self, other) {
            (Object::Cons { car: a1, cdr: d1 }, Object::Cons { car: a2, cdr: d2 }) => {
                a1.borrow().same(a2.borrow()) && d1.borrow().same(d2.borrow())
            },
            (Object::Null, Object::Null) => true,
            (Object::Fixnum(i), Object::Fixnum(j)) => *i == *j,
            (Object::Symbol(s), Object::Symbol(t)) => *s == *t,
            (Object::Boolean(a), Object::Boolean(b)) => *a == *b,
            (Object::Subr(l1, f1), Object::Subr(l2, f2)) => {
                *f1 == *f2 && l1.borrow().same(l2.borrow())
            },
            (Object::Fsubr(l1, f1), Object::Fsubr(l2, f2)) => {
                *f1 == *f2 && l1.borrow().same(l2.borrow())
            },
            (
                Object::Expr { form: b1, lambda_list: p1, env: e1 },
                Object::Expr { form: b2, lambda_list: p2, env: e2 },
            ) => {
                b1.borrow().same(b2.borrow()) && p1.borrow().same(p2.borrow()) && e1.borrow().same(
                    e2.borrow(),
                )
            },
            _ => false,
        }
    }
}

impl Clone for ObjP {
    /// Another handle on the same object.
    fn clone(&self) -> (p: Self)
        ensures
            p@ == self@,
    {
        Self { object: share(&self.object) }
    }
}

impl PartialEq for ObjP {
    fn eq(&self, other: &ObjP) -> (b: bool) {
        self.same(other)
    }
}

impl vstd::std_specs::cmp::PartialEqSpecImpl for ObjP {
    open spec fn obeys_eq_spec() -> bool {
        true
    }

    open spec fn eq_spec(&self, other: &ObjP) -> bool {
        self@ == other@
    }
}

impl Eq for ObjP {}

impl PartialEq for Object {
    fn eq(&self, other: &Object) -> (b: bool) {
        self.same(other)
    }
}

impl vstd::std_specs::cmp::PartialEqSpecImpl for Object {
    open spec fn obeys_eq_spec() -> bool {
        true
    }

    open spec fn eq_spec(&self, other: &Object) -> bool {
        self@ == other@
    }
}

impl Eq for Object {}

/// What can go wrong when a form is evaluated. Each error holds the objects
/// it complains about.
#[derive(Debug)]
pub enum EvalError {
    /// The symbol has no binding in the environment.
    Unbound(ObjP),
    /// Operands were expected to form a proper list; this is the tail that
    /// is neither a pair nor the empty list.
    ImproperList(ObjP),
    /// The parameter list, and arguments of which there are too many.
    TooManyArgs(ObjP, ObjP),
    /// The parameter list, and arguments of which there are too few.
    NotEnoughArgs(ObjP, ObjP),
    /// The parameter list, and an argument list that ends in an atom.
    DottedArgs(ObjP, ObjP),
    /// The value in operator position is no combiner.
    NotCombiner(ObjP),
    /// `car` or `cdr` was given something that is not a pair.
    NotCons(ObjP),
    /// The condition of an `if` came out as something that is not a boolean.
    NotBoolean(ObjP),
}

/// The mathematical value of an [`EvalError`].
pub enum Failure {
    Unbound(Sexp),
    ImproperList(Sexp),
    TooManyArgs(Sexp, Sexp),
    NotEnoughArgs(Sexp, Sexp),
    DottedArgs(Sexp, Sexp),
    NotCombiner(Sexp),
    NotCons(Sexp),
    NotBoolean(Sexp),
}

impl View for EvalError {
    type V = Failure;

    open spec fn view(&self) -> Failure {
        match self {
            EvalError::Unbound(x) => Failure::Unbound(x@),
            EvalError::ImproperList(x) => Failure::ImproperList(x@),
            EvalError::TooManyArgs(ll, args) => Failure::TooManyArgs(ll@, args@),
            EvalError::NotEnoughArgs(ll, args) => Failure::NotEnoughArgs(ll@, args@),
            EvalError::DottedArgs(ll, args) => Failure::DottedArgs(ll@, args@),
            EvalError::NotCombiner(x) => Failure::NotCombiner(x@),
            EvalError::NotCons(x) => Failure::NotCons(x@),
            EvalError::NotBoolean(x) => Failure::NotBoolean(x@),
        }
    }
}

/// A value, or the error that evaluation ended in.
pub type EvalResult = Result<ObjP, EvalError>;

/// A broken internal invariant. Unlike an [`EvalError`] it says nothing
/// about the form that was evaluated being wrong: the evaluator was handed,
/// or was led to build, data that it cannot work on.
#[derive(Clone, Copy, Debug, PartialEq, Eq, Structural)]
pub enum Fault {
    /// An environment that is not a list of `(symbol . value)` entries.
    IllFormedEnvironment,
    /// A parameter list with something other than a symbol to bind.
    BadLambdaList,
    /// Evaluation nested deeper than the bound it was given.
    DepthExceeded,
}

/// An evaluation that may also end in a [`Fault`].
pub type Outcome = Result<EvalResult, Fault>;

/// The mathematical value of an [`Outcome`].
pub type SpecOutcome = Result<Result<Sexp, Failure>, Fault>;

/// The value of a result: that of the object or of the error in it.
pub open spec fn result_view(r: EvalResult) -> Result<Sexp, Failure> {
    match r {
        Ok(v) => Ok(v@),
        Err(e) => Err(e@),
    }
}

/// The value of an outcome.
pub open spec fn outcome_view(r: Outcome) -> SpecOutcome {
    match r {
        Ok(x) => Ok(result_view(x)),
        Err(f) => Err(f),
    }
}

/// A symbol with the given name.
pub fn intern(name: &str) -> (p: ObjP)
    ensures
        p@ == Sexp::Symbol(name@),
{
    ObjP::new(Object::Symbol(name.to_owned()))
}

/// A pair of the two objects, which it shares with the caller.
pub fn cons(car: &ObjP, cdr: &ObjP) -> (p: ObjP)
    ensures
        p@ == Sexp::Pair(Box::new(car@), Box::new(cdr@)),
{
    ObjP::new(Object::Cons { car: car.clone(), cdr: cdr.clone() })
}

/// The association list `alist` with the entry `(key . val)` in front.
pub open spec fn acons_spec(key: Sexp, val: Sexp, alist: Sexp) -> Sexp {
    Sexp::Pair(Box::new(Sexp::Pair(Box::new(key), Box::new(val))), Box::new(alist))
}

/// The association list `alist` with the entry `(key . val)` put in front.
pub fn acons(key: &ObjP, val: &ObjP, alist: &ObjP) -> (p: ObjP)
    ensures
        p@ == acons_spec(key@, val@, alist@),
{
    cons(&cons(key, val), alist)
}

/// The empty list.
pub fn nil() -> (p: ObjP)
    ensures
        p@ == Sexp::Empty,
{
    ObjP::new(Object::Null)
}

/// A symbol with the given name.
pub fn make_symbol(name: &str) -> (p: ObjP)
    ensures
        p@ == Sexp::Symbol(name@),
{
    ObjP::new(Object::Symbol(name.to_owned()))
}

/// The integer `i`.
pub fn make_fixnum(i: i64) -> (p: ObjP)
    ensures
        p@ == Sexp::Integer(i),
{
    ObjP::new(Object::Fixnum(i))
}

/// The boolean `b`.
pub fn make_bool(b: bool) -> (p: ObjP)
    ensures
        p@ == Sexp::Boolean(b),
{
    ObjP::new(Object::Boolean(b))
}

} // verus!
