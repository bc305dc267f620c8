//! The alligator engine: three smoothed averages, and a trade whenever they fall into
//! line.
pub mod alligator;
pub mod answers;
pub mod chart;
pub mod doubling;
pub mod effects;
pub mod engine;
pub mod laws;
pub mod pages;
pub mod routes;
pub mod score;
pub mod shown;
pub mod tracker;
pub mod tried;
