//! The library's modules: the entry / error model and the traversal
//! engine built on top of it.

pub mod find;
pub mod glob;
pub mod result;
pub mod tree;
