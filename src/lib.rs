//! Small verified building blocks: an arena tree with owning child links and
//! non-owning parent links, and a collection of little value types and
//! functions, each proved against its contract.

pub mod basic;
pub mod collections;
pub mod control;
pub mod errors;
pub mod generics;
pub mod lifetime;
pub mod memory;
pub mod ownership;
pub mod pattern_matching;
pub mod text;
pub mod traits;
pub mod tree;
pub mod types;
