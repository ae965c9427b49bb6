//! Core of a real-time audio engine: the control side schedules and shapes
//! playback through handles, the render side consumes commands and advances
//! tweens, clocks and playback state once per block.
//!
//! Every continuous quantity is a fixed-point number with six decimal places
//! (see [`fixed`]), so that each block is computed exactly and the same on
//! every machine: `1_000_000` stands for one, and a time is a count of
//! microseconds.
//!
//! A handle reaches its resource by a bounded queue of commands
//! ([`channel`]) and reads what the resource publishes in atomic fields
//! ([`clock::ClockShared`], [`playback::PlaybackShared`]). On the render side
//! each block first takes the commands in, oldest first, then lets time pass:
//! [`tween`] moves the parameters, [`clock`] counts ticks, [`playback`],
//! [`instance`], [`instances`] and [`streaming`] run what plays, and
//! [`mixer`] adds the tracks up along their routes.

pub mod channel;
pub mod clock;
pub mod command;
pub mod fixed;
pub mod frame;
pub mod id;
pub mod instance;
pub mod instances;
pub mod mixer;
pub mod playback;
pub mod sound;
pub mod streaming;
mod sync;
pub mod track;
pub mod tween;
pub mod value;
