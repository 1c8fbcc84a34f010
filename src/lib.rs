pub mod board;
pub mod engine;
pub mod eval;
pub mod rules;
pub mod search;
pub mod text;
pub mod worker;
