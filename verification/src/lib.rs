//! Consair, a minimal Lisp: its values and their printed form, the reader,
//! the evaluator, the operations on collections, the helpers of native functions, and the
//! parts of the compilers and of the runtime that compute on plain values.

pub mod text;
pub mod numeric;
pub mod language;
pub mod lexer;
pub mod parser;
pub mod source;
pub mod runtime;
pub mod jit;
pub mod analysis;
pub mod native;
pub mod abstractions;
pub mod stdlib;
pub mod runtime_ir;
pub mod aot;
pub mod interpreter;
pub mod round_trip;
