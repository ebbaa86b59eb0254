pub mod ids;
pub mod model;
pub mod error;
pub mod command;
pub mod apply;
pub mod bus;
pub mod describe;
pub mod laws;
pub mod project_file;
