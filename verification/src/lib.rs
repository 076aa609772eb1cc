//! The discrete core of a planar N-body simulation.
//!
//! Positions, velocities, radii and densities are real-valued and live with
//! the caller. This library takes every decision of a simulation tick that
//! does not need real arithmetic: which pairs of bodies merge and in what
//! order, which bodies pull on which, which body the camera follows, when
//! trace markers are laid down and when they expire, and what a reset creates.

pub mod body;
pub mod contacts;
pub mod engine;
pub mod merge;
pub mod scene;
pub mod settings;
pub mod stats;
pub mod sweep;
pub mod sweep_laws;
pub mod trace;
