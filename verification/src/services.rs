//! Request handling: errors, responses and the per-endpoint handlers.

pub mod associations;
pub mod categories;
pub mod errors;
pub mod hello;
pub mod recipes;
pub mod response;
pub mod routes;
pub mod step;
pub mod utils;
