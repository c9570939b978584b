//! A verified parser for the Unix `fstab` file format.
//!
//! The library turns the text lines of an fstab table into a sequence of
//! [`Fstab`] records, classifying the device field and validating the
//! numeric `dump` and `fsck` fields, or reports a typed [`Error`] for the
//! first invalid data line.  Reading the file itself is left to the caller;
//! the parser works on plain lines of text.

pub mod device;
pub mod entry;
pub mod laws;
pub mod num;
pub mod parser;
pub mod text;

pub use device::Device;
pub use device::parse_device;
pub use entry::Error;
pub use entry::ErrorType;
pub use entry::Fstab;
pub use parser::parse_line;
pub use parser::parse_lines;
