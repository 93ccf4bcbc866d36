//! Verified core of a game-directory patcher: it finds the network-service
//! libraries of an installed game, replaces them with an emulation layer
//! under a backup protocol, writes the layer's metadata, and archives what
//! it touched, reporting progress throughout. Each module states its
//! behaviour in contracts over mathematical models; file, process and
//! network access stay with the caller.

pub mod achievements;
pub mod archive;
pub mod backup;
pub mod command;
pub mod config;
pub mod interfaces;
pub mod pipeline;
pub mod progress;
pub mod scan;
pub mod search;
pub mod settings;
pub mod text;
pub mod unpack;
