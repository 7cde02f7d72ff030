pub mod filter;
pub mod fuzzy;
