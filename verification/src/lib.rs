//! A small image-viewer core: an ordered catalog of image paths with a
//! selection cursor, an interaction state machine gating navigation and
//! deletion, an aspect-ratio texture presenter, and a queue of timed
//! notifications. All logic is verified; the graphical shell around it
//! lives outside this crate.

pub mod catalog;
pub mod errors;
pub mod interaction;
pub mod keymap;
pub mod notifications;
pub mod paths;
pub mod presenter;
pub mod wallpaper;
