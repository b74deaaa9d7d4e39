//! Persistent storage backed by the raw `nvs` flash partition.
//!
//! The 24 KB partition is sliced into 4 KB sectors managed directly:
//!
//! ```text
//!   0x9000  Settings copy A   (sector)
//!   0xA000  Settings copy B   (sector)
//!   0xB000  Stats copy A      (sector)
//!   0xC000  Stats copy B      (sector)
//!   0xD000  reserved          (sector)
//!   0xE000  reserved          (sector)
//! ```
//!
//! For each kind there are two slots (A and B) with a monotonic sequence
//! number and a CRC. On load the slot with the highest sequence whose CRC
//! verifies wins; on save the *other* slot is overwritten — that way an
//! interrupted write never destroys the previously good copy.

pub mod codec;
pub mod nvs;
pub mod settings;
pub mod stats;

pub use nvs::{
    StorageError, SETTINGS_OFFSET_A, SETTINGS_OFFSET_B, SLOT_SIZE, STATS_OFFSET_A, STATS_OFFSET_B,
};
pub use settings::Settings;
pub use stats::{DayStats, Stats, MAX_STATS_DAYS};
