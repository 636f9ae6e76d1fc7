//! Streams an endless field of drifting asteroids around moving observers.
//!
//! Positions on the plane are fixed-point integers ([`space::UNIT`] units to one
//! world length), so that every decision of the streaming core is exact.
use vstd::prelude::*;

pub mod space;
pub mod asteroids;
pub mod removal;
pub mod chunk_index;
pub mod manager;
pub mod logger;
pub mod interface;

pub use asteroids::{Asteroid, get_n_ast_in_chunk, spawn_ast_in_chunk, update_asteroids};
pub use interface::KeyInput;
pub use logger::{Log, LogEnveloppe, Logger, UiLogger, error, info, log, read_logs, read_new_logs, unexpected, warn};
pub use manager::AsteroidManager;
pub use space::{Point, chunk_pos_from_pos};
