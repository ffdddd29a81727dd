//! Building blocks of a status-bar feeder: telemetry values, severity
//! thresholds, and the markup line that a bar renderer consumes.
pub mod color;
pub mod format;
pub mod line;
pub mod options;
pub mod probe;
pub mod status;
