//! Backend logic of a desktop manager for a dedicated game server run in a container.
pub mod text;
pub mod rcon;
pub mod config;
pub mod docker;
pub mod tunnel;
pub mod admin;
