//! The one-sided engine: a symbol is watched for one side, stopped out half a percent
//! against it, and entered again where the price passes the first entry.
pub mod answers;
pub mod chart;
pub mod effects;
pub mod engine;
pub mod laws;
pub mod pages;
pub mod routes;
pub mod shown;
pub mod tracker;
