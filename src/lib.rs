//! Detection of forged GNSS positioning signals.
//!
//! Every quantity is held as a fixed-point integer:
//! angles in millidegrees, latitudes and longitudes in units of 1e-7 degree,
//! times in milliseconds (rate of turn) or seconds (clock drift).
pub mod cdm;
pub mod cnm;
pub mod edv;
pub mod ensemble;
pub mod geofence;
pub mod pcc;
pub mod utilities;
