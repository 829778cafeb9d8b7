//! The rows of the store and the payloads that create or change them.

pub mod category;
pub mod ingredient;
pub mod recipe;
