//! Verified core of a rocket flight computer and its ground station.
//!
//! The flight computer fuses acceleration, barometric altitude and
//! satellite fixes into an estimate of altitude and vertical velocity,
//! detects liftoff, apogee and the main-deploy altitude from the smoothed
//! barometric altitude, and tells which pyro channel to fire. The ground
//! station decodes the downlink and keeps it for its control surface.
//! Both share one record between a loop of their own and a control
//! surface, which reads channels and queues commands.
//!
//! Nothing here touches a device, a file, a socket or a clock: callers
//! hand in what they read and carry out what is decided.
//!
//! Two kinds of number occur. What is only carried (telemetry fields,
//! samples of a channel, command arguments) is an IEEE-754
//! single-precision bit pattern, see [`word`]. What is computed with
//! (the estimator, the detector, the statistics) is an integer count of
//! thousandths, see [`fixed`].
//!
//! - [`protocol`]: the telemetry record and the downlink frame
//! - [`series`]: windowed reads of a time series
//! - [`ground`], [`flight`]: the shared records, their control surfaces
//!   and their commands
//! - [`filter`], [`kalman`]: the estimator
//! - [`window`], [`stats`]: rolling window, mean and noise
//! - [`detector`]: the flight-phase detector
//! - [`gps`]: fixes out of receiver sentences
//! - [`indicator`]: the blink pattern of the status light
//! - [`text`], [`file_tools`], [`baro`]: the text of settings, log and
//!   calibration files

pub mod baro;
pub mod detector;
pub mod file_tools;
pub mod filter;
pub mod fixed;
pub mod flight;
pub mod gps;
pub mod ground;
pub mod indicator;
pub mod kalman;
pub mod protocol;
pub mod series;
pub mod stats;
pub mod text;
pub mod window;
pub mod word;
