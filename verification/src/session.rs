//! One session: the peers that are in it, and whom a message of one of them
//! goes to.

use crate::data::ClientId;
use crate::error::RelayError;
use crate::packets::ClientDisconnected;
use vstd::prelude::*;

verus! {

/// The identifiers of a list of members, in order.
pub open spec fn ids_of(members: Seq<ClientId>) -> Seq<Seq<char>> {
    members.map_values(|m: ClientId| m@)
}

/// The test for being another peer than `id`.
pub open spec fn is_other(id: Seq<char>) -> spec_fn(Seq<char>) -> bool {
    |m: Seq<char>| m != id
}

/// The members other than `id`, in the order of `members`.
pub open spec fn others_of(members: Seq<Seq<char>>, id: Seq<char>) -> Seq<Seq<char>> {
    members.filter(is_other(id))
}

/// The member that a request of `requester` goes to: the first other member,
/// if there is one.
pub open spec fn target_of(members: Seq<Seq<char>>, requester: Seq<char>) -> Option<Seq<char>> {
    if others_of(members, requester).len() > 0 {
        Some(others_of(members, requester)[0])
    } else {
        None
    }
}

/// Whether `id` has the shape of a peer identifier: 36 characters, hyphens
/// at the positions 8, 13, 18 and 23, and digits or the letters `a` to `f`
/// everywhere else.
pub open spec fn is_peer_id(id: Seq<char>) -> bool {
    &&& id.len() == 36
    &&& forall|i: int|
        0 <= i < 36 ==> if i == 8 || i == 13 || i == 18 || i == 23 {
            #[trigger] id[i] == '-'
        } else {
            ('0' <= id[i] && id[i] <= '9') || ('a' <= id[i] && id[i] <= 'f')
        }
}

/// Model of a [`Session`].
pub struct SessionView {
    pub ns: Seq<char>,
    pub members: Seq<Seq<char>>,
}

/// Model of a [`PeerContext`].
pub struct PeerContextView {
    pub id: Seq<char>,
    pub ns: Seq<char>,
}

/// A session: its name and the peers connected to it, in the order in which
/// they joined. No identifier occurs twice.
#[derive(Debug, Clone)]
pub struct Session {
    ns: String,
    members: Vec<ClientId>,
}

/// What a connection knows of itself once it has joined: its identifier and
/// the session it is in.
#[derive(Debug, Clone)]
pub struct PeerContext {
    pub id: ClientId,
    pub ns: String,
}

/// What follows when a peer leaves: whom to tell, what to tell them, and
/// whether the session is now without members.
#[derive(Debug, Clone)]
pub struct MemberLeft {
    pub targets: Vec<ClientId>,
    pub packet: ClientDisconnected,
    pub session_empty: bool,
}

impl View for Session {
    type V = SessionView;

    closed spec fn view(&self) -> SessionView {
        SessionView { ns: self.ns@, members: ids_of(self.members@) }
    }
}

impl View for PeerContext {
    type V = PeerContextView;

    open spec fn view(&self) -> PeerContextView {
        PeerContextView { id: self.id@, ns: self.ns@ }
    }
}

/// Taking a peer out of a list without repetition leaves a list without
/// repetition, made of members of the first, in which the peer is no more.
pub proof fn lemma_others(members: Seq<Seq<char>>, id: Seq<char>)
    requires
        members.no_duplicates(),
    ensures
        others_of(members, id).no_duplicates(),
        !others_of(members, id).contains(id),
        forall|m: Seq<char>| others_of(members, id).contains(m) <==> members.contains(m) && m != id,
        others_of(members, id).len() <= members.len(),
    decreases members.len(),
{
    reveal(Seq::filter);
    if members.len() > 0 {
        let init = members.drop_last();
        let last = members.last();
        lemma_others(init, id);
        let rest = others_of(init, id);
        assert forall|m: Seq<char>| members.contains(m) <==> init.contains(m) || m == last by {
            if members.contains(m) {
                let k = choose|k: int| 0 <= k < members.len() && members[k] == m;
                if k < init.len() {
                    assert(init[k] == m);
                }
            }
        }
        if last != id {
            assert(!init.contains(last));
            assert forall|m: Seq<char>| rest.push(last).contains(m) <==> rest.contains(m) || m
                == last by {
                if rest.contains(m) {
                    let k = choose|k: int| 0 <= k < rest.len() && rest[k] == m;
                    assert(rest.push(last)[k] == m);
                }
            }
        }
    }
}

/// A peer that has left is never the target of a later request, whoever
/// asks.
pub proof fn lemma_departed_is_no_target(
    members: Seq<Seq<char>>,
    departed: Seq<char>,
    requester: Seq<char>,
)
    requires
        members.no_duplicates(),
    ensures
        target_of(others_of(members, departed), requester) != Some(departed),
{
    let remaining = others_of(members, departed);
    lemma_others(members, departed);
    lemma_others(remaining, requester);
}

/// A request never goes back to the peer that made it, and it finds a
/// target exactly when the session has another member.
pub proof fn lemma_target(members: Seq<Seq<char>>, requester: Seq<char>)
    requires
        members.no_duplicates(),
    ensures
        target_of(members, requester) != Some(requester),
        target_of(members, requester) is Some <==> exists|m: Seq<char>|
            #[trigger] members.contains(m) && m != requester,
        target_of(members, requester) matches Some(t) ==> members.contains(t),
{
    lemma_others(members, requester);
    let candidates = others_of(members, requester);
    if candidates.len() > 0 {
        let first = candidates[0];
        assert(members.contains(first) && first != requester);
    }
}

/// Wraps `uuid::Uuid::new_v4` and the `to_string` of the result: a random
/// identifier in the hyphenated lower-case form.
#[verifier::external_body]
fn fresh_client_id() -> (id: ClientId)
    ensures
        is_peer_id(id@),
{
    ClientId(uuid::Uuid::new_v4().to_string())
}

/// Position of `id` in `members`, if it is there.
fn position(members: &Vec<ClientId>, id: &ClientId) -> (at: Option<usize>)
    ensures
        match at {
            Some(i) => i < members.len() && ids_of(members@)[i as int] == id@,
            None => !ids_of(members@).contains(id@),
        },
{
    let mut i: usize = 0;
    while i < members.len()
        invariant
            i <= members.len(),
            forall|k: int| 0 <= k < i ==> members[k]@ != id@,
        decreases members.len() - i,
    {
        if members[i].same(id) {
            return Some(i);
        }
        i += 1;
    }
    None
}

/// Copies of the members other than `id`, in order.
fn others(members: &Vec<ClientId>, id: &ClientId) -> (out: Vec<ClientId>)
    ensures
        ids_of(out@) == others_of(ids_of(members@), id@),
{
    let ghost all = ids_of(members@);
    let mut out: Vec<ClientId> = Vec::new();
    let mut i: usize = 0;
    proof {
        reveal(Seq::filter);
    }
    while i < members.len()
        invariant
            i <= members.len(),
            all == ids_of(members@),
            ids_of(out@) == others_of(all.take(i as int), id@),
        decreases members.len() - i,
    {
        proof {
            assert(all.take(i + 1) =~= all.take(i as int).push(all[i as int]));
            all.take(i as int).lemma_filter_push(all[i as int], is_other(id@));
        }
        if !members[i].same(id) {
            out.push(members[i].duplicate());
        }
        i += 1;
    }
    assert(all.take(members.len() as int) =~= all);
    out
}

impl Session {
    /// The invariant of a session: no identifier occurs twice among its
    /// members.
    pub open spec fn wf(&self) -> bool {
        self@.members.no_duplicates()
    }

    /// The session named `ns`, without members.
    pub fn new(ns: String) -> (session: Session)
        ensures
            session.wf(),
            session@.ns == ns@,
            session@.members == Seq::<Seq<char>>::empty(),
    {
        let session = Session { ns, members: Vec::new() };
        session
    }

    /// The name of the session.
    pub fn ns(&self) -> (ns: &String)
        ensures
            ns@ == self@.ns,
    {
        &self.ns
    }

    /// Number of members.
    pub fn len(&self) -> (n: usize)
        ensures
            n == self@.members.len(),
    {
        self.members.len()
    }

    /// Whether the session has no member.
    pub fn is_empty(&self) -> (b: bool)
        ensures
            b == (self@.members.len() == 0),
    {
        self.members.len() == 0
    }

    /// Whether `id` is a member.
    pub fn contains(&self, id: &ClientId) -> (b: bool)
        ensures
            b == self@.members.contains(id@),
    {
        position(&self.members, id).is_some()
    }

    /// The members in the order in which they joined.
    pub fn members(&self) -> (list: Vec<ClientId>)
        ensures
            ids_of(list@) == self@.members,
    {
        let mut list: Vec<ClientId> = Vec::new();
        let mut i: usize = 0;
        while i < self.members.len()
            invariant
                i <= self.members.len(),
                ids_of(list@) == ids_of(self.members@).take(i as int),
            decreases self.members.len() - i,
        {
            list.push(self.members[i].duplicate());
            assert(ids_of(self.members@).take(i + 1) =~= ids_of(self.members@).take(
                i as int,
            ).push(self.members[i as int]@));
            i += 1;
        }
        list
    }

    /// Makes `id` the newest member, unless a member has that identifier
    /// already: then the session stays as it is and the answer is `false`.
    pub fn enroll(&mut self, id: ClientId) -> (enrolled: bool)
        requires
            old(self).wf(),
        ensures
            final(self).wf(),
            final(self)@.ns == old(self)@.ns,
            enrolled == !old(self)@.members.contains(id@),
            final(self)@.members == if enrolled {
                old(self)@.members.push(id@)
            } else {
                old(self)@.members
            },
    {
        let ghost before = ids_of(self.members@);
        match position(&self.members, &id) {
            Some(_) => false,
            None => {
                self.members.push(id);
                assert(ids_of(self.members@) =~= before.push(id@));
                true
            },
        }
    }

    /// Lets a peer in: draws an identifier for it and makes it the newest
    /// member.
    ///
    /// Should the identifier drawn be that of a member (which chance all but
    /// rules out), nobody is let in and the session stays as it is. In a
    /// session without members that cannot happen.
    pub fn join(&mut self) -> (peer: Option<PeerContext>)
        requires
            old(self).wf(),
        ensures
            final(self).wf(),
            final(self)@.ns == old(self)@.ns,
            match peer {
                Some(context) => is_peer_id(context@.id) && context@.ns == old(self)@.ns
                    && !old(self)@.members.contains(context@.id) && final(self)@.members == old(
                    self,
                )@.members.push(context@.id),
                None => final(self)@.members == old(self)@.members && old(self)@.members.len() > 0,
            },
    {
        let id = fresh_client_id();
        let context = PeerContext { id: id.duplicate(), ns: self.ns.clone() };
        if self.enroll(id) {
            Some(context)
        } else {
            None
        }
    }

    /// The peers that a broadcast of `sender` goes to: every member but the
    /// sender, in the order in which they joined.
    pub fn broadcast_targets(&self, sender: &ClientId) -> (targets: Vec<ClientId>)
        ensures
            ids_of(targets@) == others_of(self@.members, sender@),
    {
        others(&self.members, sender)
    }

    /// The peer that a request of `requester` goes to: the first member
    /// that is not the requester. Without such a member there is no target,
    /// and the requester is sent nothing.
    pub fn request_target(&self, requester: &ClientId) -> (target: Result<ClientId, RelayError>)
        ensures
            match target {
                Ok(id) => target_of(self@.members, requester@) == Some(id@),
                Err(e) => e == RelayError::NoTarget && target_of(self@.members, requester@) is None,
            },
    {
        let candidates = others(&self.members, requester);
        if candidates.len() > 0 {
            Ok(candidates[0].duplicate())
        } else {
            Err(RelayError::NoTarget)
        }
    }

    /// Takes the peer `id` out of the session and says whom to tell: every
    /// remaining member, once each, is to get the notice that `id` has left.
    ///
    /// Whether a session that is left without members is also taken out of
    /// the registry is for the caller to decide: see `session_empty`.
    pub fn leave(&mut self, id: &ClientId) -> (left: MemberLeft)
        requires
            old(self).wf(),
        ensures
            final(self).wf(),
            final(self)@.ns == old(self)@.ns,
            final(self)@.members == others_of(old(self)@.members, id@),
            ids_of(left.targets@) == final(self)@.members,
            left.packet.id@ == id@,
            left.session_empty == (final(self)@.members.len() == 0),
    {
        proof {
            lemma_others(ids_of(self.members@), id@);
        }
        let remaining = others(&self.members, id);
        let targets = others(&self.members, id);
        let session_empty = remaining.len() == 0;
        self.members = remaining;
        MemberLeft { targets, packet: ClientDisconnected { id: id.duplicate() }, session_empty }
    }
}

} // verus!
