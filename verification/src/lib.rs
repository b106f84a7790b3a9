//! An unattended relay that watches an append-only log file, extracts the
//! lines matching a configured pattern, and forwards the extracted payloads,
//! in order, to a remote messaging destination.
//!
//! The verified core is the position-tracking tailer, the line filter, and
//! the delivery loop: the stored offset moves only as a read completes,
//! payloads are delivered in file order, and the first failed send aborts the
//! rest of its cycle. Connection setup, configuration loading and the polling
//! loop itself stay outside the library and drive it.

pub mod dispatcher;
pub mod filter;
pub mod position;
pub mod scheduler;
pub mod tailer;
