//! Documents, the paths that address their nodes, and patch operations.

pub mod idiom;
pub mod laws;
pub mod operation;
pub mod patch;
pub mod record;
pub mod value;
