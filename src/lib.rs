//! Coordination core of a multi-process music bot: guild registration,
//! assignment of pooled music workers to voice channels, the text protocol
//! through which the control bot addresses a worker, and the channel gates
//! that decide which traffic is acted upon.

pub mod models;
pub mod text;
pub mod assignment;
pub mod settings;
pub mod registry;
pub mod relay;
pub mod music_playing;
pub mod music_order;
pub mod events;
