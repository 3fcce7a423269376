//! Daily prayer times: calendar arithmetic, the composition of the nine
//! instants of a day from solar measurements, and the lookup of the current
//! and next prayer.
pub mod calendar;
pub mod hijri;
pub mod prayer;
pub mod times;

pub use calendar::{Date, DateTime, Error};
pub use hijri::HijriDate;
pub use prayer::Prayer;
pub use times::{Config, IshaInterval, PrayerTimes, SolarDay};
