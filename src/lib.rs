//! Decides whether a newer stable release exists, from a list of tag names
//! and the previously recorded version.

pub mod version;
pub mod select;
pub mod decision;
