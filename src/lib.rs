//! Core of a client that shows geotagged photos on a map: the photo catalog
//! and its fetch lifecycle, the place index derived from it, the favorites
//! store, the map session state machine, and the controller that joins the
//! catalog with the map session.

pub mod catalog;
pub mod favorites;
pub mod order;
pub mod photo;
pub mod places;
pub mod session;
pub mod sync;
