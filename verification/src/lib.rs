//! Sensor sampling core for Apple-Silicon hosts.
//!
//! The crate holds the decisions of a telemetry collector: how SMC requests are
//! framed and their replies read, how sampling intervals are cut and chained,
//! how registry blobs and profiler reports are decoded. Talking to the kernel is
//! left to the caller, who performs each requested exchange and hands back what
//! came of it.
//!
//! - [`smc`] is the SMC client, [`device`] what its operations come to against
//!   an SMC, [`fourcc`] the four-character codes that both speak in.
//! - [`io_report`] is the sampling engine, [`ownership`] the account of the
//!   objects that it is answerable for.
//! - [`io_hid`] sorts what the temperature sensors report, [`io_kit`] walks
//!   the registry.
//! - [`sources`] puts the inventory of the machine together; [`json`] and
//!   [`text`] are what it reads with.

pub mod device;
pub mod error;
pub mod fourcc;
pub mod io_hid;
pub mod io_kit;
pub mod io_report;
pub mod json;
pub mod ownership;
pub mod smc;
pub mod sources;
pub mod text;
