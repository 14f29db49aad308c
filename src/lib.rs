//! Links the files of dotfile packages into a destination tree.
//!
//! [`resolve`] decides, entry by entry, whether a source file can be linked,
//! is linked already, or conflicts with what occupies its destination;
//! [`execute`] carries the decisions out one filesystem operation at a time;
//! [`laws`] proves what holds of the two together.
pub mod cli;
pub mod dir;
pub mod execute;
pub mod laws;
pub mod paths;
pub mod resolve;
pub mod summary;
