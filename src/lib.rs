//! Runtime values of a dynamically typed interpreter, packed into one
//! 64-bit NaN-boxed word with owned heap objects for closures and arrays.
use vstd::prelude::*;

pub mod codec;
pub mod function;
pub mod value;
pub mod laws;
pub mod render;
