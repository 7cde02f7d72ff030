pub mod names;
pub mod compare;
pub mod analyzer;
pub mod summary;
pub mod laws;
