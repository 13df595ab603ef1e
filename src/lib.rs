//! Telemetry for a desktop monitor applet: the logic of its collectors.
//!
//! - `rate`: rates of monotonic counters, with reset detection.
//! - `network`: throughput summed over all interfaces.
//! - `usage`: processor and memory usage percentages.
//! - `gpu`: graphics vendor detection and usage readings.
//! - `sensors`: choosing the processor and graphics temperature sensors.
//! - `media`: now-playing replies and transport state of a media player.
//! - `notifications`: the bus monitor trace reader and notification list.
//! - `weather`: refresh scheduling and request building.
//! - `text`: character-level search, trimming and decimal helpers.

pub mod gpu;
pub mod media;
pub mod network;
pub mod notifications;
pub mod rate;
pub mod sensors;
pub mod text;
pub mod usage;
pub mod weather;
