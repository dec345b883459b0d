//! Name resolution, relation extraction and code-generation planning for the
//! caustics entity macros.

pub mod naming;
pub mod text;
pub mod attrs;
pub mod caustics;

pub mod entity;
