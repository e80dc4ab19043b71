//! Reader and writer support library for Open Mining Format version 2.
//!
//! This crate holds the verified core of the format: array and constraint types, the
//! validation rules for arrays and sub-blocks, the archive naming and version rules, the
//! Parquet schemas each array type accepts and the column checks, the OMF v1 header and byte
//! decoding rules, and the small state machines used while reading and writing files.

mod text;
pub mod version;

pub use version::{
    crate_full_name, format_full_name, format_version, CRATE_NAME, CRATE_VERSION,
    FORMAT_EXTENSION, FORMAT_NAME, FORMAT_VERSION_MAJOR, FORMAT_VERSION_MINOR,
};

pub mod array;
pub mod array_type;
pub mod attribute;
pub mod attribute_checks;
pub mod block_model;
pub mod boundary;
pub mod colormap;
pub mod error;
mod error_types;
pub mod file;
pub mod float_bits;
pub mod geometry;
pub mod omf1;
pub mod pqarray;
pub mod pq_schema;
pub mod array_schemas;
pub mod problem;
pub mod validator;
pub mod read_checks;
pub mod write_checks;
pub mod zip_container;

pub use array::{Array, ArrayType, Constraint, DataType};
pub use attribute::Location;
pub use block_model::SubblockMode;
pub use boundary::Boundary;
pub use colormap::NumberRange;
