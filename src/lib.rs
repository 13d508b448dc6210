//! Workout decoding and execution control for a smart trainer.
//!
//! * [`workout`] rebuilds a flat list of timed power steps from the decoded
//!   records of a workout file, unrolling repeat blocks.
//! * [`command`] decides when a power command has to be (re)sent to the
//!   trainer, from its acknowledgements and the time.
//! * [`timeline`] walks the step list against elapsed time and reports the
//!   live status and each new power set point.
//! * [`data_url`] takes the bytes of a workout file out of a `data:` URL.
//! * [`config`] holds the device pairing configuration.
pub mod command;
pub mod config;
pub mod data_url;
pub mod timeline;
pub mod workout;
