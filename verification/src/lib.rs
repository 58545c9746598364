//! A falling-sand cellular automaton: a sparse grid of material cells that
//! advances one generation at a time under local, material-specific rules.

pub mod control;
pub mod coord;
pub mod dynamics;
pub mod particle;
pub mod simulation;
pub mod window;
