pub mod database;
pub mod parser;
pub mod analyzer;
pub mod laws;
