//! In-memory state core of a service-mesh proxy.
//!
//! The library keeps the authoritative view of the mesh — workloads,
//! services and authorization policies — and answers the questions the
//! connection path asks on every new flow: what a destination address or
//! hostname denotes, which backend endpoint shall carry a flow, whether an
//! authenticated connection is permitted, and which next-hop socket to use
//! when traffic must traverse a waypoint proxy. A TTL-driven, single-flight
//! DNS cache serves workloads addressable only by name.

pub mod lookup;
pub mod net;
pub mod policy;
pub mod resolver;
pub mod service;
pub mod state;
pub mod workload;
