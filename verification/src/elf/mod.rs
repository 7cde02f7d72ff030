pub mod analyzer;
pub mod image;
pub mod parser;
pub mod summary;
