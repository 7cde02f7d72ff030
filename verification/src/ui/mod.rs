pub mod stats;
pub mod region;
pub mod map;
pub mod explorer;
pub mod details;
pub mod laws;
