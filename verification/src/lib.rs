//! Decisions of a container-monitoring service and of a gRPC student gateway.

pub mod analysis;
pub mod clock;
pub mod containers;
pub mod gateway;
pub mod graph;
pub mod order;
pub mod process;
pub mod text;
