//! Supervisor for a single long-running worker process and the
//! newline-delimited JSON bridge around it: commands go to the worker as
//! one JSON document per line, and every line of worker output is relayed
//! to an event sink, wrapped as a log event when it is not JSON.
//!
//! The host owns the operating-system side — spawning, pipes, file reads —
//! and hands this library plain values; the library decides everything
//! else and says exactly what it decided.

pub mod errors;
pub mod paths;
pub mod relay;
pub mod supervisor;
pub mod text;
pub mod wire;

pub use errors::SupervisorError;
pub use paths::LaunchSpec;
pub use relay::Relay;
pub use supervisor::Supervisor;
pub use wire::Command;
