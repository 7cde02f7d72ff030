pub mod numbers;
pub mod parser;
pub mod regions;
pub mod api;
