//! Typed string keys, and two containers that consume them.
//!
//! A [`key::Key`] pairs a string name with a compile-time-only type tag, so
//! that reads from a heterogeneous store or a configuration document are
//! checked against the type the key was declared with.

pub mod addr;
pub mod config;
pub mod key;
pub mod node;
pub mod parse;
pub mod store;
mod text;
