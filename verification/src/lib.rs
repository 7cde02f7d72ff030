pub mod text;
pub mod sort;
pub mod models;
pub mod utils;
pub mod elf;
pub mod linker;
pub mod diff;
pub mod vector;
pub mod symbol;
pub mod export;
pub mod ui;
