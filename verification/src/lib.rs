pub mod span;
pub mod text;
pub mod value;
pub mod error;
pub mod scope;
pub mod expr;
pub mod eval;
pub mod check;
pub mod token;
pub mod parse;
pub mod pipeline;
pub mod ir;
pub mod laws;
