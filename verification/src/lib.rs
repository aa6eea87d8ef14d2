//! Assembles a spreadsheet document into a package archive, and interns the
//! formatting records that its cells share.

pub mod archive;
pub mod content_types;
pub mod decimal;
pub mod descriptor;
pub mod drawings;
pub mod laws;
pub mod layout;
pub mod location;
pub mod manager;
pub mod model;
pub mod relationships;
pub mod rtype;
pub mod writer;
pub mod xml;
