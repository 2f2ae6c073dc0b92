//! A digital-signage player core: scripts record drawing commands into a
//! buffer once per frame, a renderer replays them under a stack of
//! offsets, and live edits to scripts and data files are folded in
//! between frames.
pub mod cache;
pub mod commands;
pub mod data;
pub mod geometry;
pub mod host;
pub mod iter_util;
pub mod offset;
pub mod paths;
pub mod perf;
pub mod reload;
pub mod replay;
pub mod script;
pub mod watch;
