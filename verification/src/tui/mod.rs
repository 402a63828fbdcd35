//! The state of the interactive dashboard and what the keys do to it.
//!
//! Drawing and the terminal belong to the caller. This module holds the
//! selection, the filters and the input modes, and says after each event
//! what the caller has to do.

pub mod data;
pub mod events;
pub mod input;
pub mod layout;

pub mod state;
