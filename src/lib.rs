pub mod name_map;
pub mod report;
pub mod errors;
pub mod files;
pub mod cache;
pub mod laws;
pub mod runner;
