//! Decoding and rendering of the events that the callback program emits.

pub mod amount;
pub mod dispatch;
pub mod event;
pub mod format;
pub mod layout;
pub mod model;
pub mod records;
pub mod registry;
pub mod text;
pub mod wire;
