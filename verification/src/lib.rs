//! Container layer of a WebP reader: envelope validation, chunk traversal and
//! access to the decoded luma plane.

pub mod container;
pub mod decoder;
pub mod endian;
pub mod error;
pub mod frame;
pub mod reader;
pub mod source;
pub mod tag;
