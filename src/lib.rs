//! A ranked list of demons with gap-free positions, and case-insensitive
//! resolution of the players that the demons reference.

pub mod error;
pub mod load;
pub mod model;
pub mod names;
pub mod player;
pub mod post;
pub mod sections;
pub mod store;
