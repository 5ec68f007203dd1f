//! A falling-characters animation for a character-grid terminal: a grid of
//! cells that dim and flicker, and drops that fall through it and light the
//! cells they pass.

pub mod cell;
pub mod chance;
pub mod rain;
pub mod rates;
pub mod theorems;
pub mod ui;
