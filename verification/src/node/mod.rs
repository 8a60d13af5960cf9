//! The node view of a class: names and values resolved from the constant pool.

pub mod const_reader;
pub mod element;
pub mod node_reader;
pub mod values;
