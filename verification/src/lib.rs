//! XLB: a layer-4 load balancer core, verified.
//!
//! The crate holds the packet fast path (decode, classify, rewrite,
//! RST emission), the connection-tracking flow table, backend selection,
//! and the userspace maintenance logic (stats aggregation, backend
//! publication, flow reaping). Kernel attachment, timers, signals and
//! route probing live outside the library and hand it plain values.

pub mod balancing;
pub mod checksum;
pub mod config;
pub mod consts;
pub mod errors;
pub mod flow_table;
pub mod handler;
pub mod headers;
pub mod iface;
pub mod laws;
pub mod mac;
pub mod maintenance;
pub mod packet;
pub mod types;
