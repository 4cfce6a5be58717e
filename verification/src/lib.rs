//! Schema subsystem of a columnar table-file format.
//!
//! The crate models a recursive column-type tree, the preorder column-id
//! numbering that every other layer of the format uses to address data,
//! and the codec between that tree and the flat, index-referenced type
//! array stored in a file's footer.

pub mod common;
pub mod data_type;
pub mod error;
pub mod model;
pub mod numbering;
pub mod codec;
