//! Verified core of a force-directed 2D graph layout engine.
//!
//! The engine simulates pairwise repulsion between all nodes and spring-like
//! attraction along edges.  This crate holds the parts of that engine that are
//! pure discrete logic, each with a proved contract:
//!
//! - the static 3x3 / 2x2 spatial zone scheme and its adjacency relation,
//! - the half-matrix indexing used by the per-step distance/direction cache,
//! - the selection of exact versus aggregated repulsion interactions in the
//!   zoned approximation mode,
//! - small combinatorial helpers.
//!
//! The floating-point force arithmetic itself (vector algebra, magnitudes,
//! integration) lives with the unverified host code, which drives it over the
//! plans and caches this crate maintains.

pub mod half_matrix;
pub mod helpers;
pub mod interactions;
pub mod links;
pub mod zone;
