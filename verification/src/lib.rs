//! The logic behind a small foreign-function boundary: wrapping 32-bit
//! arithmetic, a version text, and a greeting built from a borrowed
//! NUL-terminated string.
//!
//! Nothing here touches a raw pointer. Text that comes in is a byte buffer,
//! text that goes out is an [`OwnedString`]; turning either into a pointer,
//! or a pointer back into either, is left to the caller.

pub mod arith;
pub mod boundary;
pub mod c_text;
pub mod error;

pub use arith::{add, subtract};
pub use boundary::{free_string, say_hello, version};
pub use c_text::OwnedString;
pub use error::BoundaryError;
