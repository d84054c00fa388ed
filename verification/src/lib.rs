//! Bombhopper level model and its JSON wire format.
//!
//! The crate defines the data model for a 2D platformer level (points,
//! ammunition, shapes, entities, and the aggregate level) together with a
//! serializer that renders a level into the exact JSON text that the level
//! editor and game runtime consume.  Every serializer function carries a
//! contract pinning the produced character sequence down to the byte.

pub mod laws;
pub mod model;
pub mod num;
pub mod ser;

pub use model::Ammo;
pub use model::AmmoType;
pub use model::Entity;
pub use model::Level;
pub use model::Point;
pub use model::Shape;
pub use model::TextAlign;
pub use num::Num;
