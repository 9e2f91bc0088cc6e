//! Interactive note picker: the matching rules and the selection state
//! machine behind a terminal note chooser.

pub mod logging;
pub mod pattern;
pub mod render;
pub mod repository;
pub mod search;
pub mod selection;
