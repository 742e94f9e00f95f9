pub mod text;
pub mod sort;
pub mod model;
pub mod parse;
pub mod git;
pub mod blame;
pub mod app;
pub mod collections;
pub mod tree;
pub mod config;
pub mod persistence;
pub mod cli;
pub mod event;
pub mod input;
pub mod paths;
pub mod shell;
