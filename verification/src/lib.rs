//! Tile-upgrade decision logic for a hex-grid building game.
//!
//! The board maps hex positions to tiles, each tile holding one structure.
//! A pending queue supplies structures for first placement; upgrades are
//! gated by the goods that neighbouring tiles supply. The orchestration
//! module drives the trigger / menu-selection state machine over the board.

pub mod board;
pub mod commands;
pub mod goods;
pub mod orchestration;
pub mod position;
pub mod resolver;
pub mod structures;
