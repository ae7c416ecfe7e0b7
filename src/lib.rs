//! Promotes permission entries of a project's settings document into the user's
//! global settings document: the documents' permission lists, the selection list
//! that the user moves through, and the session that turns key presses into
//! changes and saves.

pub mod json;
pub mod render;
pub mod selection;
pub mod session;
