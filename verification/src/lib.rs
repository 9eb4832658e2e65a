//! Verified logic of the Black Pill payjoin test firmware: the GPIO register
//! arithmetic that drives the status LED, the LED indicator schedules, the
//! polled USB CDC transport decisions, and the payjoin `ShortId` probe.

pub mod gpio;
pub mod indicator;
pub mod transport;
pub mod payjoin_probe;
pub mod device;
