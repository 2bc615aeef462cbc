//! A verified core for a small Lisp/Scheme-family interpreter: symbolic
//! expressions, lexical environments with cycle-safe mark-sweep reclamation,
//! a three-variant procedure model, and a tail-call trampoline evaluator.

pub mod span;

pub mod expr;

pub mod list;

pub mod env;

pub mod proc;

pub mod eval;

pub mod built_in;

pub mod builtin;
