//! Core of a container-telemetry gateway: a rolling-window metric registry
//! keyed by container id, the delta-method CPU-utilization derivation the
//! metric poller applies each cycle, the decision logic of the event
//! fan-out task with its idle parking and exponential backoff, the
//! broadcast ring buffer's delivery discipline, and the validators and
//! parsers the request handlers rely on.
//!
//! Everything here is deterministic logic over plain values; the
//! surrounding binary does the I/O and feeds the results in.

pub mod api_types;
pub mod event_buffer;
pub mod fanout;
pub mod parse;
pub mod paths;
pub mod poller;
pub mod registry;
pub mod shared_map;
pub mod snapshots;
pub mod text;
pub mod transfer;
pub mod upload;
pub mod validate;
pub mod window;
