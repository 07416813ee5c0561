//! The engine of a before/after image comparison slider: two images lie on
//! top of each other, and a divider that the user drags shows more of one
//! and less of the other.
//!
//! The engine computes and decides; a host in the browser reads events and
//! paints. All quantities are fixed-point numbers ([`fixed`]), so every
//! value that reaches a style is an exact rational, rounded once.
//!
//! - [`style`] holds the ordered style map, its rendering as inline CSS,
//!   and the style sheet of all regions.
//! - [`regions`] derives the style of each region from the geometry.
//! - [`overrides`] reads the caller's inline CSS and merges it into the
//!   images' styles.
//! - [`aspect`] resolves the container's height from the images'
//!   proportions.
//! - [`pointer`] turns pointer coordinates into a slider position.
//! - [`widget`] is the state machine: events in, state and listener
//!   commands out.
//! - [`ledger`] proves that the commands keep the host's listeners in step
//!   with the state.
//! - [`text`] builds numerals and orders texts.

pub mod aspect;
pub mod fixed;
pub mod ledger;
pub mod overrides;
pub mod pointer;
pub mod regions;
pub mod style;
pub mod text;
pub mod widget;

pub use crate::aspect::AspectRatio;
