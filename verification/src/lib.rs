//! Verified core of a controller for the I/O worker pools of a fleet of VMs, and
//! of its terminal dashboard.
//!
//! Everything here is computation on plain values: what the daemon and the
//! dashboard read from the host, the bus and the terminal is handed in, and what
//! they should do next is handed back.
//!
//! * [`backends`], [`engines`]: registries, discovery and fleet evaluation
//! * [`instance`], [`cpu`], [`cgroup`], [`thread_filter`]: the state of one VM and
//!   what is measured of it
//! * [`state`]: which VMs automatic scaling owns, across restarts
//! * [`startup`]: decisions before the daemon serves
//! * [`tui`]: the dashboard
//! * [`text`], [`order`], [`names`], [`util`], [`sums`]: texts, their order, sets of
//!   them, paths, and sums
pub mod backends;
pub mod cgroup;
pub mod cpu;
pub mod engines;
pub mod instance;
pub mod names;
pub mod order;
pub mod startup;
pub mod state;
pub mod sums;
pub mod text;
pub mod thread_filter;
pub mod tui;
pub mod util;
