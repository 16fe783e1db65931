//! Verified core of the Drowned God cockpit and of its bandwidth probe.

pub mod chat;
pub mod clock;
pub mod cockpit;
pub mod http;
pub mod layout;
pub mod palette;
pub mod probe;
pub mod screen;
pub mod single;
pub mod telemetry;
pub mod text;
