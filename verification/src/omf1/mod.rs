//! Reading OMF v1 files: the header, the byte layout of their arrays, and the rules for
//! turning their legends into categories.

pub mod array;
pub mod category_handler;
pub mod converter;
pub mod error;
pub mod objects;
pub mod reader;


pub use error::{ModelType, Omf1Error};
pub use converter::{detect, Converter};
