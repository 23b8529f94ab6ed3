//! Supervision of idle-aware proxy processes, one per server group: parsing
//! and routing of their log output, corrective backend actions, launch
//! sequencing and shutdown coordination.
pub mod backend;
pub mod config;
pub mod kubernetes;
pub mod lifecycle;
pub mod log_line;
pub mod router;
pub mod supervisor;
