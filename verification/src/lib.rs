//! Utilities for querying game servers.
//!
//! The library holds the decision logic of the `rgs` game-server query tool:
//! the data model of queried servers, the wire-format parsers that are the
//! project's own, and the mapping of decoded protocol packets onto servers
//! and follow-up queries. Sockets, DNS and ICMP stay with the caller.
pub mod bytes;
pub mod dns;
pub mod errors;
pub mod model;
pub mod models;
pub mod net;
pub mod protocol;
pub mod protocols;
pub mod q3;
pub mod text;
pub mod value;

use vstd::prelude::*;

verus! {

} // verus!
