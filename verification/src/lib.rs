//! Combat rules, turn order, targeting and skill descriptions of a small
//! turn-based role-playing game, with their contracts proved by Verus.
pub mod component;
pub mod error;
pub mod text;
pub mod turn_order;
pub mod traits;
pub mod eval;
pub mod targeting;
pub mod combat;
pub mod ui;
pub mod bundle;
pub mod math;
pub mod movement;
