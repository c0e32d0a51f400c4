//! The hub: every session that is open and the registry of their names,
//! kept in step with one another.

use crate::data::ClientId;
use crate::error::RelayError;
use crate::names::is_session_name;
use crate::packets::ClientPreflightResponse;
use crate::relay::{on_member_left, preflight, EmptyPolicy};
use crate::session::{ids_of, is_peer_id, others_of, target_of, MemberLeft, PeerContext, Session, SessionView};
use crate::state::{names_of, NamespaceStore};
use vstd::prelude::*;

verus! {

/// The models of a list of sessions, in order.
pub open spec fn views_of(sessions: Seq<Session>) -> Seq<SessionView> {
    sessions.map_values(|s: Session| s@)
}

/// Whether one of `sessions` is named `ns`.
pub open spec fn has_session(sessions: Seq<SessionView>, ns: Seq<char>) -> bool {
    exists|i: int| 0 <= i < sessions.len() && (#[trigger] sessions[i]).ns == ns
}

/// The place of the session named `ns` among `sessions`.
pub open spec fn index_of(sessions: Seq<SessionView>, ns: Seq<char>) -> int {
    choose|i: int| 0 <= i < sessions.len() && (#[trigger] sessions[i]).ns == ns
}

/// Whether no two of `sessions` have the same name.
pub open spec fn distinct_names(sessions: Seq<SessionView>) -> bool {
    forall|i: int, j: int|
        0 <= i < j < sessions.len() ==> (#[trigger] sessions[i]).ns != (#[trigger] sessions[j]).ns
}

/// The members of each session, by the name of the session.
pub open spec fn members_by_name(sessions: Seq<SessionView>) -> Map<Seq<char>, Seq<Seq<char>>> {
    Map::new(
        |ns: Seq<char>| has_session(sessions, ns),
        |ns: Seq<char>| sessions[index_of(sessions, ns)].members,
    )
}

/// Among sessions with different names, a session is found by its name.
proof fn lemma_lookup(sessions: Seq<SessionView>, i: int)
    requires
        distinct_names(sessions),
        0 <= i < sessions.len(),
    ensures
        has_session(sessions, sessions[i].ns),
        index_of(sessions, sessions[i].ns) == i,
        members_by_name(sessions)[sessions[i].ns] == sessions[i].members,
{
}

/// Changing the members of one session changes the entry under its name
/// and no other.
proof fn lemma_update(sessions: Seq<SessionView>, i: int, changed: SessionView)
    requires
        distinct_names(sessions),
        0 <= i < sessions.len(),
        changed.ns == sessions[i].ns,
    ensures
        distinct_names(sessions.update(i, changed)),
        members_by_name(sessions.update(i, changed)) == members_by_name(sessions).insert(
            changed.ns,
            changed.members,
        ),
{
    let after = sessions.update(i, changed);
    assert forall|ns: Seq<char>| has_session(after, ns) <==> has_session(sessions, ns) by {
        if has_session(sessions, ns) {
            let k = index_of(sessions, ns);
            assert(after[k].ns == ns);
        }
    }
    lemma_lookup(sessions, i);
    assert forall|ns: Seq<char>| has_session(after, ns) implies #[trigger] members_by_name(after)[ns]
        == members_by_name(sessions).insert(changed.ns, changed.members)[ns] by {
        let k = index_of(after, ns);
        lemma_lookup(after, k);
        lemma_lookup(sessions, k);
    }
}

/// A new session under a new name is one more entry.
proof fn lemma_push(sessions: Seq<SessionView>, added: SessionView)
    requires
        distinct_names(sessions),
        !has_session(sessions, added.ns),
    ensures
        distinct_names(sessions.push(added)),
        members_by_name(sessions.push(added)) == members_by_name(sessions).insert(
            added.ns,
            added.members,
        ),
{
    let after = sessions.push(added);
    assert forall|ns: Seq<char>| has_session(after, ns) <==> has_session(sessions, ns) || ns
        == added.ns by {
        if has_session(sessions, ns) {
            let k = index_of(sessions, ns);
            assert(after[k].ns == ns);
        }
        if ns == added.ns {
            assert(after[sessions.len() as int].ns == ns);
        }
    }
    assert forall|ns: Seq<char>| has_session(after, ns) implies #[trigger] members_by_name(after)[ns]
        == members_by_name(sessions).insert(added.ns, added.members)[ns] by {
        let k = index_of(after, ns);
        lemma_lookup(after, k);
        if k < sessions.len() {
            lemma_lookup(sessions, k);
        }
    }
}

/// Closing a session takes out the entry under its name and no other.
proof fn lemma_remove(sessions: Seq<SessionView>, i: int)
    requires
        distinct_names(sessions),
        0 <= i < sessions.len(),
    ensures
        distinct_names(sessions.remove(i)),
        members_by_name(sessions.remove(i)) == members_by_name(sessions).remove(sessions[i].ns),
{
    let after = sessions.remove(i);
    let gone = sessions[i].ns;
    assert forall|ns: Seq<char>| has_session(after, ns) <==> has_session(sessions, ns) && ns
        != gone by {
        if has_session(sessions, ns) && ns != gone {
            let k = index_of(sessions, ns);
            let k1 = if k < i { k } else { k - 1 };
            assert(after[k1].ns == ns);
        }
    }
    assert forall|ns: Seq<char>| has_session(after, ns) implies #[trigger] members_by_name(after)[ns]
        == members_by_name(sessions).remove(gone)[ns] by {
        let k = index_of(after, ns);
        let k0 = if k < i { k } else { k + 1 };
        lemma_lookup(after, k);
        lemma_lookup(sessions, k0);
    }
}

/// Every session that is open, with the registry of their names.
///
/// The hub is not synchronised: whoever shares it between connections puts
/// it behind one lock.
pub struct Hub {
    namespace_len: usize,
    policy: EmptyPolicy,
    store: NamespaceStore,
    sessions: Vec<Session>,
}

impl View for Hub {
    type V = Map<Seq<char>, Seq<Seq<char>>>;

    /// The members of each open session, in the order in which they
    /// joined, by the name of the session.
    closed spec fn view(&self) -> Map<Seq<char>, Seq<Seq<char>>> {
        members_by_name(views_of(self.sessions@))
    }
}

impl Hub {
    /// The invariant of the hub: the registry holds the names of the open
    /// sessions and no other, no two sessions have the same name, and no
    /// session has the same member twice.
    pub closed spec fn wf(&self) -> bool {
        &&& self.namespace_len <= isize::MAX
        &&& self.store.wf()
        &&& self.store@ == self@.dom()
        &&& distinct_names(views_of(self.sessions@))
        &&& forall|i: int| 0 <= i < self.sessions.len() ==> (#[trigger] self.sessions[i]).wf()
    }

    /// The length of the session names that the hub hands out.
    pub closed spec fn namespace_len(&self) -> usize {
        self.namespace_len
    }

    /// What the hub does with a session that its last member has left.
    pub closed spec fn policy(&self) -> EmptyPolicy {
        self.policy
    }

    /// In a well-formed hub no session has the same member twice.
    pub proof fn lemma_members_distinct(&self, ns: Seq<char>)
        requires
            self.wf(),
            self@.dom().contains(ns),
        ensures
            self@[ns].no_duplicates(),
    {
    }

    /// A hub without sessions, which hands out names of `namespace_len`
    /// characters.
    pub fn new(namespace_len: usize, policy: EmptyPolicy) -> (hub: Hub)
        requires
            namespace_len <= isize::MAX,
        ensures
            hub.wf(),
            hub@ == Map::<Seq<char>, Seq<Seq<char>>>::empty(),
            hub.namespace_len() == namespace_len,
            hub.policy() == policy,
    {
        let hub = Hub { namespace_len, policy, store: NamespaceStore::new(), sessions: Vec::new() };
        assert(hub.store@ =~= hub@.dom());
        hub
    }

    /// Place of the session named `ns`, if it is open.
    fn find(&self, ns: &String) -> (at: Option<usize>)
        ensures
            match at {
                Some(i) => i < self.sessions.len() && self.sessions[i as int]@.ns == ns@,
                None => !has_session(views_of(self.sessions@), ns@),
            },
    {
        let mut i: usize = 0;
        while i < self.sessions.len()
            invariant
                i <= self.sessions.len(),
                forall|k: int| 0 <= k < i ==> (#[trigger] self.sessions[k])@.ns != ns@,
            decreases self.sessions.len() - i,
        {
            if *self.sessions[i].ns() == *ns {
                return Some(i);
            }
            i += 1;
        }
        None
    }

    /// The names of the open sessions as they are now.
    pub fn names(&self) -> (snapshot: Vec<String>)
        requires
            self.wf(),
        ensures
            names_of(snapshot@).to_set() == self@.dom(),
            names_of(snapshot@).no_duplicates(),
    {
        self.store.get_all()
    }

    /// Whether a session named `ns` is open.
    pub fn is_open(&self, ns: &String) -> (open: bool)
        ensures
            open == self@.dom().contains(ns@),
    {
        let at = self.find(ns);
        proof {
            if let Some(i) = at {
                assert(views_of(self.sessions@)[i as int].ns == ns@);
            }
        }
        at.is_some()
    }

    /// Handles a preflight: opens a session under a fresh name and answers
    /// with the name. Where no free name is found, nothing changes.
    pub fn preflight(&mut self) -> (r: Result<ClientPreflightResponse, RelayError>)
        requires
            old(self).wf(),
        ensures
            final(self).wf(),
            final(self).namespace_len() == old(self).namespace_len(),
            final(self).policy() == old(self).policy(),
            match r {
                Ok(response) => is_session_name(response.ns@, old(self).namespace_len() as nat)
                    && !old(self)@.dom().contains(response.ns@) && final(self)@ == old(
                    self,
                )@.insert(response.ns@, Seq::empty()),
                Err(e) => e == RelayError::SessionIdExhausted && final(self)@ == old(self)@
                    && exists|name: Seq<char>| #[trigger]
                    old(self)@.dom().contains(name) && is_session_name(
                        name,
                        old(self).namespace_len() as nat,
                    ),
            },
    {
        let ghost before = views_of(self.sessions@);
        match preflight(&mut self.store, self.namespace_len) {
            Ok(response) => {
                let session = Session::new(response.ns.clone());
                proof {
                    lemma_push(before, session@);
                }
                self.sessions.push(session);
                assert(views_of(self.sessions@) =~= before.push(session@));
                Ok(response)
            },
            Err(e) => Err(e),
        }
    }

    /// Lets a peer into the session named `ns`: draws an identifier for it
    /// and makes it the newest member.
    ///
    /// Nobody is let in where no such session is open, or where the
    /// identifier drawn is that of a member (which chance all but rules
    /// out): then nothing changes.
    pub fn join(&mut self, ns: &String) -> (peer: Option<PeerContext>)
        requires
            old(self).wf(),
        ensures
            final(self).wf(),
            final(self).namespace_len() == old(self).namespace_len(),
            final(self).policy() == old(self).policy(),
            match peer {
                Some(context) => old(self)@.dom().contains(ns@) && context@.ns == ns@
                    && is_peer_id(context@.id) && !old(self)@[ns@].contains(context@.id)
                    && final(self)@ == old(self)@.insert(ns@, old(self)@[ns@].push(context@.id)),
                None => final(self)@ == old(self)@ && (old(self)@.dom().contains(ns@) ==> old(
                    self,
                )@[ns@].len() > 0),
            },
    {
        let ghost before = views_of(self.sessions@);
        match self.find(ns) {
            None => None,
            Some(i) => {
                proof {
                    lemma_lookup(before, i as int);
                }
                let peer = self.sessions[i].join();
                proof {
                    let changed = self.sessions[i as int]@;
                    assert(views_of(self.sessions@) =~= before.update(i as int, changed));
                    lemma_update(before, i as int, changed);
                    assert(self.store@ =~= self@.dom());
                }
                peer
            },
        }
    }

    /// The peers that a broadcast of `peer` goes to: every other member of
    /// its session, in the order in which they joined. Members of other
    /// sessions are never among them.
    pub fn broadcast_targets(&self, peer: &PeerContext) -> (targets: Vec<ClientId>)
        requires
            self.wf(),
        ensures
            ids_of(targets@) == if self@.dom().contains(peer@.ns) {
                others_of(self@[peer@.ns], peer@.id)
            } else {
                Seq::empty()
            },
    {
        match self.find(&peer.ns) {
            None => {
                let targets: Vec<ClientId> = Vec::new();
                targets
            },
            Some(i) => {
                proof {
                    lemma_lookup(views_of(self.sessions@), i as int);
                }
                self.sessions[i].broadcast_targets(&peer.id)
            },
        }
    }

    /// The peer that a request of `peer` goes to: the first other member of
    /// its session. Without one there is no target.
    pub fn request_target(&self, peer: &PeerContext) -> (target: Result<ClientId, RelayError>)
        requires
            self.wf(),
        ensures
            match target {
                Ok(id) => self@.dom().contains(peer@.ns) && target_of(self@[peer@.ns], peer@.id)
                    == Some(id@),
                Err(e) => e == RelayError::NoTarget && (self@.dom().contains(peer@.ns)
                    ==> target_of(self@[peer@.ns], peer@.id) is None),
            },
    {
        match self.find(&peer.ns) {
            None => Err(RelayError::NoTarget),
            Some(i) => {
                proof {
                    lemma_lookup(views_of(self.sessions@), i as int);
                }
                self.sessions[i].request_target(&peer.id)
            },
        }
    }

    /// Takes `peer` out of its session and says whom to tell: every
    /// remaining member, once each. A session left without members is
    /// closed, and its name given up, if that is the policy of the hub.
    ///
    /// Where the session of `peer` is not open, nothing changes and nobody
    /// is to be told.
    pub fn leave(&mut self, peer: &PeerContext) -> (left: Option<MemberLeft>)
        requires
            old(self).wf(),
        ensures
            final(self).wf(),
            final(self).namespace_len() == old(self).namespace_len(),
            final(self).policy() == old(self).policy(),
            match left {
                Some(notice) => {
                    let remaining = others_of(old(self)@[peer@.ns], peer@.id);
                    &&& old(self)@.dom().contains(peer@.ns)
                    &&& ids_of(notice.targets@) == remaining
                    &&& notice.packet.id@ == peer@.id
                    &&& notice.session_empty == (remaining.len() == 0)
                    &&& final(self)@ == if remaining.len() == 0 && old(self).policy()
                        == EmptyPolicy::Remove {
                        old(self)@.remove(peer@.ns)
                    } else {
                        old(self)@.insert(peer@.ns, remaining)
                    }
                },
                None => !old(self)@.dom().contains(peer@.ns) && final(self)@ == old(self)@,
            },
    {
        let ghost before = views_of(self.sessions@);
        match self.find(&peer.ns) {
            None => None,
            Some(i) => {
                proof {
                    lemma_lookup(before, i as int);
                }
                let notice = self.sessions[i].leave(&peer.id);
                let ghost changed = self.sessions[i as int]@;
                let ghost between = views_of(self.sessions@);
                proof {
                    assert(between =~= before.update(i as int, changed));
                    lemma_update(before, i as int, changed);
                }
                let removed = on_member_left(&mut self.store, &self.sessions[i], self.policy);
                if removed {
                    self.sessions.remove(i);
                    proof {
                        assert(views_of(self.sessions@) =~= between.remove(i as int));
                        lemma_remove(between, i as int);
                    }
                }
                assert(self.store@ =~= self@.dom());
                Some(notice)
            },
        }
    }
}

} // verus!
