//! A small S-expression language: source text is read into S-expressions
//! ([`token_stream`], [`parser`]), lowered into an intermediate representation with symbolic
//! labels and local slots ([`builder`], [`ir`]), encoded into byte-addressed bytecode with
//! labels resolved to offsets ([`encoder`], [`bytecode`]), and run by a stack machine with
//! call frames and host-provided natives ([`vm`]). [`pipeline::evaluate`] drives the three
//! back-end stages.
use vstd::prelude::*;

pub mod value;
pub mod ir;
pub mod bytecode;
pub mod encoder;
pub mod vm;
pub mod sexp;
pub mod builder;
pub mod pipeline;
pub mod token;
pub mod token_stream;
pub mod parser;

verus! {

} // verus!
