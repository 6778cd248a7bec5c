//! Lifecycle logic for network-sandboxed jobs: host-port allocation, private
//! address assignment, the namespace and firewall command plans, the launch
//! command line, and the spawn and teardown state machines.

pub mod address;
pub mod command;
pub mod grammar;
pub mod inventory;
pub mod job;
pub mod ports;
pub mod scan;
pub mod text;
