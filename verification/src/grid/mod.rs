//! The grid engine: levels half a percent apart, and a trade against the move
//! whenever a level is crossed.
pub mod answers;
pub mod chart;
pub mod effects;
pub mod engine;
pub mod laws;
pub mod levels;
pub mod pages;
pub mod routes;
pub mod score;
pub mod shown;
pub mod tracker;
pub mod tried;
