//! Identity of a connected peer.

use vstd::prelude::*;

verus! {

/// The identifier of one connection inside a session. It is drawn at random
/// when the peer joins, and differs from that of every other member.
#[derive(Debug, Clone)]
pub struct ClientId(pub String);

impl View for ClientId {
    type V = Seq<char>;

    open spec fn view(&self) -> Seq<char> {
        self.0@
    }
}

impl ClientId {
    /// A second handle on the same identifier.
    pub fn duplicate(&self) -> (copy: ClientId)
        ensures
            copy@ == self@,
    {
        ClientId(self.0.clone())
    }

    /// Whether two identifiers are the same.
    pub fn same(&self, other: &ClientId) -> (b: bool)
        ensures
            b == (self@ == other@),
    {
        self.0 == other.0
    }
}

} // verus!
