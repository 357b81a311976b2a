//! The flight logic of a Wi-Fi quadcopter: what the control packets mean, when the motors
//! must stand still, what goes out on the four DShot lines, how the inertial sensor is brought
//! up, and what the serial log says.
//!
//! The library holds every decision as a function from plain values to plain values. The
//! firmware around it moves bytes between the peripherals and these functions, and does the
//! floating-point arithmetic of the attitude estimate and the PID terms.

pub mod bytes;
pub mod dshot;
pub mod flight;
pub mod history;
pub mod imu;
pub mod line;
pub mod mixer;
pub mod protocol;
pub mod queue;
pub mod telemetry;
