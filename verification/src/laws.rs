//! What holds of the service whatever the store holds and whatever is
//! asked. For each endpoint, its effect on the store and its response are
//! given in one statement, and the run of its handler is shown to come to
//! just that; from these follows what holds of requests made one after the
//! other.

pub mod categories;
pub mod failures;
pub mod outcome;
pub mod recipes;
pub mod requests;
