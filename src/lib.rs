//! Conversion between unitypackage archives and plain directory trees.
//!
//! The library holds the decisions of both directions: grouping archive
//! members into asset records, planning how each record lands in the
//! destination (with conflict resolution), and planning which members a
//! packed tree produces. Reading and writing files is left to the caller,
//! which performs the planned operations in order.

pub mod args;
pub mod index;
pub mod meta;
pub mod naming;
pub mod pack;
pub mod paths;
pub mod rebuild;
pub mod round_trip;
pub mod text;
pub mod ui;
