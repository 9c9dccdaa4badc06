//! Matcher-indexed concurrency admission for network services.
//!
//! The crate joins two pieces: a composable set of peer-address matchers
//! (socket address, IP network, port, loopback, plus path/method predicates
//! and the `all`/`any`/`negate` combinators) and a bounded concurrent-slot
//! admission layer driven by an ordered table of `(matcher, policy)` rows.
//! Matchers decide which policy a call falls under; the policy grants or
//! denies a concurrency slot, optionally after capped exponential backoff.

pub mod admission;
pub mod context;
pub mod matcher;
pub mod net;
pub mod parse;
pub mod policy;

pub use admission::{AdmissionError, AdmissionLayer, CallStep, CellIndex, Permit, PolicyCell, Selection};
pub use context::{Context, Extensions, Request, Socket, SocketInfo};
pub use matcher::{
    IntoIpNet, IpNetFilter, LoopbackFilter, Matcher, MethodFilter, PathFilter, PortFilter,
    SocketAddressFilter,
};
pub use net::{IpAddr, IpNet, Ipv4Net, Ipv6Net, SocketAddr};
pub use policy::{AcquireStep, Backoff, ConcurrentPolicy};
