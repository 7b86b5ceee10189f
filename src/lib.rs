//! Job application tracking: the domain model, its stable text encodings,
//! and the mapping between records and the rows of the backing store.

pub mod date;
pub mod db;
pub mod error;
pub mod form;
pub mod model;
pub mod text;
