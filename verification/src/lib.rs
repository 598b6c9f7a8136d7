//! Control-loop logic for a closed-loop chassis fan-speed controller.
//!
//! The library holds the decision logic only: the temperature-to-duty
//! curve, the bounded history of commanded duties, the rate smoother,
//! the anomaly detector with its reset lockout, and the per-tick step
//! of the control loop. Hardware access (IPMI commands, sensor file
//! reads) lives outside and hands this library plain values.

pub mod anomaly;
pub mod control;
pub mod curve;
pub mod history;
pub mod smoother;
pub mod temperature;

pub use anomaly::AnomalyDetector;
pub use control::ControlLoop;
pub use curve::fan_curve;
pub use history::RateHistory;
pub use smoother::smooth;
pub use temperature::parse_temperature;
pub use temperature::read_temperature;
