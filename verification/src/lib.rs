//! The decisions of a talking desktop robot: what its screen shows, how its
//! microphone's samples are cut into segments, when speech begins and ends,
//! and what is asked of the services that transcribe it and answer it.
//!
//! Everything here computes on plain values. Devices, files and network
//! services are driven by the program around the library.
pub mod audio;
pub mod avatar;
pub mod chunks;
pub mod framebuffer;
pub mod speech;
pub mod voice;
