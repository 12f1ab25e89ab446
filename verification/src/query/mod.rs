pub mod ast;
pub mod index_selector;
pub mod planner;
pub mod executor;
pub mod parser;
