//! Front end and tree-walk evaluator for a small expression language:
//! source text is scanned into tokens, parsed into an expression tree and
//! evaluated to a literal value.
pub mod ast_printer;
pub mod driver;
pub mod error_report;
pub mod expression;
pub mod interpreter;
pub mod numbers;
pub mod parser;
pub mod scanner;
pub mod text;
pub mod token;
