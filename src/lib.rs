pub mod catalog;
pub mod course;
pub mod engine;
pub mod filter;
pub mod rank;
pub mod requirement;
pub mod tokenizer;
