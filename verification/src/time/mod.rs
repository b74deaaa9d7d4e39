//! Wall-clock time. Anchored once at boot (from NTP if reachable, otherwise
//! from `Settings::last_seen_unix`) and then derived from the monotonic
//! counter for the rest of the session.

pub mod calendar;
pub mod clock;
pub mod ntp;

pub use clock::{civil_from_unix, yyyymmdd, CivilDate, Clock};
pub use ntp::{parse_ntp_response, NtpRequest};
