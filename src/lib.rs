//! A small line-numbered language: a tokenizer, a parser that builds one syntax
//! tree per numbered line, and an interpreter that runs the lines in label order.
use vstd::prelude::*;

pub mod tokenizer;
pub mod ast;
pub mod grammar;
pub mod decimal;
pub mod program;
pub mod parser;
pub mod interpreter;

verus! {

} // verus!
