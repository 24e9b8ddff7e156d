//! Core simulation library for a 2D tile-based action-adventure game:
//! grid model with two tile layers, field-of-view storage, cost-field
//! pathfinding, per-archetype agent decisions, action arbitration, and
//! constrained procedural map generation with reachability pruning.
#![allow(unused_imports)]

pub mod ai;
pub mod combat;
pub mod cost_field;
pub mod fov;
pub mod grid;
pub mod interactions;
pub mod maps;
pub mod message;
pub mod position;
pub mod reachability;
pub mod region_map;
pub mod rng;
pub mod tile_type;
