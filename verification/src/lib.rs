//! A small evaluator for an S-expression language in which everything that
//! can stand in operator position is a combiner.
//!
//! Text is read into objects ([`reader`]), objects are evaluated in an
//! environment ([`eval`]) that starts out as the ground environment
//! ([`ground`]), and objects are written back as text ([`render`]).
//!
//! Each function states what it returns over the mathematical value of
//! its arguments, [`objects::Sexp`]. What holds of several functions
//! together is proved beside them: that reading undoes writing
//! ([`roundtrip`]), that a bound on depth does not change how an
//! evaluation ends ([`depth`]), and that environments stay environments
//! ([`sound`]).

pub mod depth;
pub mod eval;
pub mod ground;
pub mod objects;
pub mod reader;
pub mod render;
pub mod roundtrip;
pub mod sound;
