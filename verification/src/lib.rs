//! Shape-directed decoding of edn documents.
//!
//! A document is a tree of [`Value`] nodes. A caller names the shape it
//! expects, and the decoder checks the next node against that shape, narrows
//! numbers with a range check, and hands out cursors over the elements of
//! composite nodes.
//!
//! - [`value`] holds the nodes, their model and what each shape makes of a
//!   node; [`order`], [`sorted`] and [`canonical`] the order of values and
//!   the one form that sets and maps have by it.
//! - [`reader`] reads the next node from text, and [`raw`] turns what was
//!   read into a value.
//! - [`de`] is the decoder with its operations, one for each shape, and
//!   [`cursor`] what it hands out for a composite node.
//! - [`shape`] describes whole shapes and decodes a node under one, and
//!   [`laws`] states what holds of that for every node.

pub mod canonical;
pub mod cursor;
pub mod de;
pub mod error;
pub mod laws;
pub mod number;
pub mod order;
pub mod raw;
pub mod reader;
pub mod shape;
pub mod sorted;
pub mod text;
pub mod value;

pub use crate::de::Deserializer;
pub use crate::error::Error;
pub use crate::shape::{from_str, Decoded, Shape};
pub use crate::value::{Symbol, Tagged, Value};
