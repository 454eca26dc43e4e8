//! A verified core for a DreamMaker Icon (DMI) viewer: the decoded sprite
//! model, direction mapping, frame extraction, animation synthesis and the
//! non-destructive resize policy. File and clipboard plumbing, the GUI shell
//! and the raw PNG decoder live outside this crate's verified surface.

pub mod animation;
pub mod config;
pub mod dmi_model;
pub mod dmi_utils;
pub mod frame;
pub mod resize;
pub mod shell;
