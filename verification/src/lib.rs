//! Relay between a browser's native-messaging host and the desktop application:
//! endpoint naming, the decisions of the IPC client and server, the framing of
//! the host's standard streams, and the process hardening entry points.

pub mod ipc;
pub mod proxy;
pub mod powermonitor;
pub mod processisolation;
