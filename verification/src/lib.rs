pub mod ast;
pub mod text;
pub mod vectorize;
pub mod newton;
pub mod random;
pub mod lexer;
pub mod grammar;
pub mod parse_expr;
pub mod model;
pub mod parse_eq;
pub mod parse_class;
pub mod parser;
pub mod compat;
pub mod loader;
pub mod resolve;
pub mod types;
pub mod mos;
pub mod analysis;
pub mod names;
pub mod intrinsics;
