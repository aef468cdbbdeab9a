//! What is known of each supported game, and the work done on its image.

pub mod detection;
pub mod eldenring;
pub mod entry_points;
pub mod game_data;
pub mod manager;
pub mod pattern;
pub mod registry;
pub mod resolver;
pub mod scanner;
pub mod sections;
pub mod signature;
