pub mod action;
pub mod brain;
pub mod config;
pub mod errors;
pub mod laws;
pub mod paths;
pub mod render;
pub mod sys;
pub mod text;
