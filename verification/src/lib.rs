//! Toolchain core for a tiny concatenative language: lexer, parser, stack-effect
//! inference, a resumable interpreter and code generators, with machine-checked contracts.
pub mod accounting;
pub mod agreement;
pub mod analyze;
pub mod codegen;
pub mod convert;
pub mod interpreter;
pub mod intrinsics;
pub mod lang;
pub mod parse_error;
pub mod parser;
pub mod parser_laws;
pub mod program;
pub mod render;
pub mod resolution;
pub mod soundness;
pub mod stack;
pub mod text;
pub mod token_order;
pub mod tokenize_error;
pub mod tokenizer;
pub mod tokenizer_laws;
