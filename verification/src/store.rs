//! The store as the handlers see it: the statements they send, the replies
//! they get, and what each statement means.

pub mod memory;
pub mod model;
pub mod statement;
pub mod validity;
