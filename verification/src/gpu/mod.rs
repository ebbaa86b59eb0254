pub mod error;
pub mod float_text;
pub mod lut;
