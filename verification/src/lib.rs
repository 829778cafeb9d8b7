//! The decision logic of a small recipe service over a relational store,
//! with proofs of what it does.
//!
//! - [`models`] holds the rows of the store and the payloads that create or
//!   change them.
//! - [`services`] holds the handlers, one per endpoint. A handler is a
//!   transition function: from the state that a request has reached and the
//!   reply to the statement sent last, it gives the next statement for the
//!   store or the response that ends the request. No handler talks to a
//!   store itself; whoever runs one sends its statements and hands back the
//!   replies.
//! - [`store`] holds the statements, what each of them means, and a store
//!   in memory that does what they mean.
//! - [`service`] runs a request from its start to its response against the
//!   store in memory.
//! - [`laws`] states what follows: what each endpoint comes to, what holds
//!   of requests made one after the other, and that a request does all of
//!   its work or none, whatever fails.

pub mod laws;
pub mod models;
pub mod service;
pub mod services;
pub mod store;
