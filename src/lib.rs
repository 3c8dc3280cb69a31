pub mod alias;
pub mod app;
pub mod commands;
pub mod config;
pub mod exitcode;
pub mod file;
pub mod foreign;
pub mod order;
pub mod shell;
pub mod slang;
pub mod util;
