//! Networks of compose projects, volumes, images and local DNS names, as far as they can be
//! decided without touching the host.
pub mod dns;
pub mod image;
pub mod keymap;
pub mod network;
pub mod paths;
pub mod removal;
pub mod state;
pub mod text;
pub mod volume;
