//! Mobius: the download organizer's decisions, proved.
pub mod text;
pub mod table;
pub mod paths;
pub mod config;
pub mod classifier;
pub mod mover;
pub mod clock;
pub mod state;
pub mod scanner;
pub mod organizer;
pub mod actions;
pub mod undo;
pub mod requests;
