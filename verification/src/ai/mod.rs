pub mod config;
pub mod tools;
pub mod agent;
