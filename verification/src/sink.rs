//! How a collected value reached the collector.

use vstd::prelude::*;

verus! {

/// Which mechanism produced a value.
#[derive(Debug, Clone, Copy, PartialEq, Eq, Structural)]
pub enum Source {
    /// Pushed by the server through a subscription.
    Subscribe,
    /// Read by the polling loop.
    Poll,
}

impl Source {
    /// The lowercase label of each source.
    pub open spec fn label(self) -> Seq<char> {
        match self {
            Source::Subscribe => seq!['s', 'u', 'b', 's', 'c', 'r', 'i', 'b', 'e'],
            Source::Poll => seq!['p', 'o', 'l', 'l'],
        }
    }

    /// Lowercase label, for logs and serialization.
    pub fn as_str(&self) -> (r: &'static str)
        ensures
            r@ == self.label(),
    {
        proof {
            reveal_strlit("subscribe");
            reveal_strlit("poll");
        }
        match self {
            Source::Subscribe => "subscribe",
            Source::Poll => "poll",
        }
    }
}

} // verus!
