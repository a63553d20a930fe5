pub mod types;
pub mod diagram;
pub mod grammar;
pub mod extract;
pub mod batch;
pub mod project;
