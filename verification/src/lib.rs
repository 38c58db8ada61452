//! Verified core of a small LED-and-display firmware: the colour and index
//! arithmetic of two LED strip animations, the animation engines themselves as
//! step-wise state machines, and the command/data framing protocol of an SPI
//! display controller. Hardware transports (SPI, timed-pulse, GPIO, timers)
//! stay outside: the engines hand frames and bus-operation plans to whatever
//! transport the caller runs them on.

pub mod chase;
pub mod color;
pub mod cycle;
pub mod display;
pub mod ring;
