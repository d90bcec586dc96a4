pub mod q3m;
pub mod q3s;

use crate::model::{Query, Server};
use vstd::prelude::*;

verus! {

/// One result of parsing a server response.
#[derive(Clone, Debug)]
pub enum Outcome<P> {
    /// A fully parsed server.
    Server(Server),
    /// A follow-up query to run (a server address handed out by a master).
    FollowUp(Query<P>),
}

/// The parsed result of a single response datagram.
#[derive(Clone, Debug)]
pub struct Parsed<P> {
    pub outcomes: Vec<Outcome<P>>,
    /// Whether more datagrams are to be read on this socket.
    pub expect_more: bool,
}

} // verus!
