pub mod command;
pub mod geometry;
pub mod json;
pub mod shell;
pub mod startup;
pub mod store;
pub mod text;
pub mod workspace;
