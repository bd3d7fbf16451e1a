pub mod block;
pub mod chain;
pub mod ids;
pub mod index;
pub mod mempool;
pub mod status;
pub mod tracker;
pub mod tweaks;

pub use tracker::{Error, Tracker};
