//! A ladder-logic tile grid: an editable 2D grid of relay-logic elements
//! (wires, contacts, coils) with pointer-driven hover and focus selection,
//! and a small digital I/O module addressed by symbolic names.

pub mod cpu;
pub mod edit;
pub mod ladder;
pub mod math;
pub mod style;
pub mod systems;
pub mod tile;
pub mod tilemap;
