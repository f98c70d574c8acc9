//! Resource telemetry for a desktop utility: memory, disk and process
//! snapshots, the parsers for the system tools that back them, and the
//! bridge that turns a remote status script's output into ordered events.
pub mod badge;
pub mod disk;
pub mod memory;
pub mod process;
pub mod status_stream;
pub mod text;
pub mod units;
