//! The exchange: signed requests, the orders that are placed, and what replies say.
pub mod account;
pub mod laws;
pub mod orders;
pub mod quantity;
pub mod replies;
pub mod requests;
pub mod sent;
pub mod signing;
