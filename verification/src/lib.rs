//! A discrete board for a swarm of point robots.
//!
//! The board is a rectangular grid of cells. One overlay records which robot
//! stands on which cell and which way it faces; a second overlay records the
//! signal sources on the board and, for every cell, the sources whose
//! broadcast reaches it.

pub mod board;
pub mod board_controller;
pub mod kilobot;
