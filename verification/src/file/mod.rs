//! Reading from file-like objects, sub-files, reading limits, and writing options.

pub mod read_at;
pub mod reader;
pub mod sub_file;
pub mod writer;

pub use read_at::ReadAt;



pub use sub_file::SubFile;
pub use reader::Limits;
pub use writer::Compression;
