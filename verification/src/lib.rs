//! Live network-traffic statistics: a header-keyed aggregation core with a
//! bounded rolling history per observed interface, a start/stop/query
//! lifecycle, and an incremental snapshot protocol for remote clients.

pub mod buffer;
pub mod codec;
pub mod control;
pub mod encode;
pub mod history;
pub mod json;
pub mod registry;
pub mod render;
pub mod session;
pub mod tls;
pub mod upgrade;
