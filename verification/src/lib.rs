//! Typed reads of fixed-record binary files: byte orders, the decoding of
//! integers from bytes, the bounds that seeks and bulk reads must respect, and
//! the errors that report a refused request.
pub mod byte_order;
pub mod decimal;
pub mod binary_file;
pub mod file_error;
pub mod error;
