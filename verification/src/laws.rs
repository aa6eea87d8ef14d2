//! What holds of every package, proved from the statement of its layout.

pub mod coverage;
pub mod declaration;
pub mod directories;
pub mod manifest;
pub mod names;
pub mod omission;
pub mod order;
pub mod references;
