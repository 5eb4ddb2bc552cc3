//! A verified core for a terminal Game-of-Life sandbox: a fixed-size grid of
//! cells, the classical B3/S23 generation rule, and the editor / simulator
//! state machines that interpret user commands.

pub mod cell;
pub mod controller;
pub mod editor;
pub mod finder;
pub mod grid;
pub mod rules;
pub mod simulator;
pub mod tables;
