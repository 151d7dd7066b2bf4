pub mod problem;
pub mod text;
pub mod algorithms;
