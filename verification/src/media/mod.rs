pub mod error;
pub mod settings;
pub mod args;
pub mod export;
pub mod timeline_export;
pub mod preview;
pub mod process;
pub mod probe;
