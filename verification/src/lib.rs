//! Translation of a library's C-callable surface into C header text.
//!
//! Declarations are handed to a [`LangC`] one by one; each is translated into the text
//! of a C declaration and appended to the header of its module in an [`Outputs`]. At
//! the end every header is wrapped in an include guard, and one more header includes
//! them all, each after the headers that define what it uses.

pub mod ast;
pub mod ctype;
pub mod emit;
pub mod error;
pub mod graph;
pub mod header;
pub mod lang_c;
pub mod link;
pub mod outputs;
pub mod text;
pub mod translate;

pub use crate::ctype::{CPtrType, CType, CTypeNamed};
pub use crate::error::{Error, ErrorKind, Level};
pub use crate::header::sanitise_id;
pub use crate::lang_c::LangC;
pub use crate::outputs::Outputs;
pub use crate::translate::{anon_rust_to_c, rust_to_c};
