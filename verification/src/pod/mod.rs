//! The POD wire format: typed values, each with a header giving its size
//! and type, padded to eight bytes.

pub mod field;
pub mod kind;
pub mod packed;
pub mod read;
pub mod ty;
pub mod write;

pub use self::field::Field;

pub use self::read::read_struct;
pub use self::ty::Type;
pub use self::write::{write_field, write_struct};

