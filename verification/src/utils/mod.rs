pub mod benchmark;
pub mod helpers;
