//! Verified core of a Minecraft mod update checker: version matching,
//! dependency-range evaluation, metadata extraction and update resolution.

pub mod text;
pub mod mc_version;
pub mod verify;
pub mod tree;
pub mod curseforge;
pub mod paths;
pub mod hashing;
pub mod scan;
pub mod modrinth;
pub mod resolve;
pub mod sort;
pub mod tui;
pub mod config;
pub mod download;
