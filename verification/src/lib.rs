pub mod bytes;
pub mod classify;
pub mod model;
pub mod extract;
pub mod grouping;
pub mod hashing;
pub mod laws;
pub mod merge;
pub mod stem;
pub mod title;
