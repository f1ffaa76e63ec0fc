//! A compiler from a small subset of C to assembly text for x86-64.
//!
//! The stages run in order, each on what the stage before it gave: the
//! [`lexer`], the [`parser`], the lowering to the intermediate representation
//! ([`ir`]), instruction selection ([`codegen`], with the frame layout of
//! [`frame`]) and the emitter ([`code_emission`]). [`pipeline`] runs them one
//! after the other. What each stage produces is defined by a function of its
//! input, and the stage is proved to compute that function.
pub mod assembly;
pub mod ast;
pub mod code_emission;
pub mod codegen;
pub mod errors;
pub mod frame;
pub mod ir;
pub mod lexer;
pub mod parser;
pub mod pipeline;
pub mod ssa;
pub mod text;
pub mod tokens;
pub mod types;
