//! A registry of the live lifeforms of a multiplayer game.
//!
//! Lifeforms are players and monsters. The registry keeps them in numbered
//! slots and indexes them by network address, by identifier and by room.
//! Every operation carries a contract over the registry's mathematical view.

pub mod address_index;
pub mod laws;
pub mod lifeform;
pub mod lifeformlist;
pub mod model;
pub mod room_index;

pub use lifeform::{Address, LifeformComponent, LifeformType, LifeformView, Position};
pub use lifeformlist::LifeformList;
pub use model::RegistryView;
