//! Verified building blocks of a PipeWire client: POD buffers and encoding,
//! memory regions, and the bookkeeping of client nodes and ports.

pub mod array;
pub mod array_buf;
pub mod as_reader;
pub mod as_slice;
pub mod bitmap;
pub mod buf;
pub mod bytes;
pub mod choice;
pub mod client;
pub mod control;
pub mod error;
pub mod pod;
pub mod writer;

pub use buf::ArrayVec;
pub use error::{Error, ErrorKind};
