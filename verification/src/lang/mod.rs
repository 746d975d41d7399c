//! The language model: types, stack effects, terms, tokens and values.
pub mod arity;
pub mod arity_combine;
pub mod arity_laws;
pub mod arity_ops;
pub mod arity_parse;
pub mod arity_plain;
pub mod arity_reading;
pub mod arity_text;
pub mod ast;
pub mod multi_index;
pub mod number;
pub mod source_lines;
pub mod source_location;
pub mod string;
pub mod symbol;
pub mod token;
pub mod types;
pub mod value;

pub use arity::Arity;
pub use arity::ArityCombineError;
pub use arity::Certainty;
pub use arity::ResultantType;
pub use arity::VariableEffect;
pub use ast::Block;
pub use ast::Branch;
pub use ast::Function;
pub use ast::Import;
pub use ast::ImportLocation;
pub use ast::ImportNaming;
pub use ast::Loop;
pub use ast::Module;
pub use ast::Term;
pub use multi_index::MultiIndex;
pub use multi_index::MultiIndexIter;
pub use number::Number;
pub use source_location::SourceCrawler;
pub use source_location::SourceLocation;
pub use source_location::SourcePositions;
pub use source_location::SourceRange;
pub use symbol::Symbol;
pub use token::ParsedToken;
pub use token::Token;
pub use types::Type;
pub use value::OwnedValue;
pub use value::Value;
