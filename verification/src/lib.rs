//! Verified core of the we-layerd wallpaper daemon: runtime state machines,
//! window rules, playlist timing, media selection, DMA-BUF feedback bookkeeping
//! and the small decision procedures that the daemon's I/O shell relies on.

pub mod control;
pub mod rules;
pub mod bytes;
pub mod ordered;
pub mod toplevels;
pub mod text;
pub mod media;
pub mod dmabuf;
pub mod playlist;
pub mod orchestrator;
pub mod window;
pub mod backend;
pub mod config;
pub mod cli;
pub mod present;
pub mod install;
pub mod input;
pub mod pointer;
pub mod doctor;
pub mod hooks;
pub mod outputs;
pub mod audio;
pub mod integrations;
pub mod statuses;
pub mod placement;
pub mod runtime_status;
pub mod surface_setup;
