//! Front end of the Block-ASM compiler: a literal-aware scanner, a symbol
//! classifier and a parser that builds the document tree, each reporting
//! every diagnostic it finds instead of stopping at the first.

pub mod text;
pub mod error;
pub mod node;
pub mod number;
pub mod lexer;
pub mod parser;
pub mod compile;

pub use compile::{
    compile, compile_with_data, read_flags, run_pipeline, CompileData, CompileOutput, OutputType,
};
pub use error::BasmError;
pub use lexer::{lex, lex_symbol, scan, Symbol, Token, TokenType};
pub use node::{Node, NodeData};
pub use parser::parse;
