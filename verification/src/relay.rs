//! The relay protocol: what the hub decides for each event of a peer.

use crate::error::RelayError;
use crate::names::{create_random_namespace, is_session_name};
use crate::json::json_view;
use crate::packets::{
    aggregate_json, append_blocks, data_views, AckResponse, AckResponseExt, AckView,
    AggregateResponse, AggregateView, ClientData, ClientDataView, ClientPreflightResponse,
};
use crate::session::Session;
use crate::state::{names_of, NamespaceStore};
use vstd::prelude::*;
use vstd::string::StringExecFns;

verus! {

/// Longest wait for an acknowledgement, in milliseconds. An answer that
/// arrives later is discarded.
pub const ACK_TIMEOUT_MS: u64 = 4000;

/// Event by which a client at the entry point asks for a session.
pub const EVENT_PREFLIGHT: &'static str = "session:preflight";

/// Event by which a member sends to every other member.
pub const EVENT_BROADCAST: &'static str = "session:broadcast";

/// Event by which a member asks one other member.
pub const EVENT_REQUEST: &'static str = "session:request";

/// Event that carries an envelope to a target.
pub const EVENT_DATA: &'static str = "session:data";

/// Event that tells the remaining members that a peer has left.
pub const EVENT_MEMBER_LEFT: &'static str = "session:member-left";

/// Where a connection stands in its life.
#[derive(Debug, Clone, Copy, PartialEq, Eq, Structural)]
pub enum PeerState {
    /// Connected to the entry point, member of no session.
    EntryPoint,
    /// Member of a session.
    SessionMember,
    /// Gone. Nothing follows.
    Disconnected,
}

/// What a connection can ask of the relay.
#[derive(Debug, Clone, Copy, PartialEq, Eq, Structural)]
pub enum PeerEvent {
    /// Create a session.
    Preflight,
    /// Enter the session whose endpoint was connected to.
    Join,
    /// Send to every other member and gather their answers.
    Broadcast,
    /// Send to one other member and hand its answer back.
    Request,
    /// The connection was closed.
    Disconnect,
}

/// What the relay does for an event.
#[derive(Debug, Clone, Copy, PartialEq, Eq, Structural)]
pub enum PeerAction {
    /// Reserve a fresh session name, answer with it, then close the
    /// connection: the peer comes back on the endpoint of the new session.
    CreateSession,
    /// Give the peer an identifier and make it a member.
    AdmitMember,
    /// Send the envelope to every other member and merge the answers.
    FanOut,
    /// Send the envelope to one other member and forward its answer.
    ForwardToOne,
    /// Tell the remaining members that the peer has left.
    NotifyMemberLeft,
    /// The event has no meaning in this state and is dropped.
    Nothing,
}

/// The protocol as a table: the state that follows and what is done.
pub open spec fn step(state: PeerState, event: PeerEvent) -> (PeerState, PeerAction) {
    match (state, event) {
        (PeerState::EntryPoint, PeerEvent::Preflight) => (
            PeerState::Disconnected,
            PeerAction::CreateSession,
        ),
        (PeerState::EntryPoint, PeerEvent::Join) => (
            PeerState::SessionMember,
            PeerAction::AdmitMember,
        ),
        (PeerState::EntryPoint, PeerEvent::Disconnect) => (
            PeerState::Disconnected,
            PeerAction::Nothing,
        ),
        (PeerState::SessionMember, PeerEvent::Broadcast) => (
            PeerState::SessionMember,
            PeerAction::FanOut,
        ),
        (PeerState::SessionMember, PeerEvent::Request) => (
            PeerState::SessionMember,
            PeerAction::ForwardToOne,
        ),
        (PeerState::SessionMember, PeerEvent::Disconnect) => (
            PeerState::Disconnected,
            PeerAction::NotifyMemberLeft,
        ),
        _ => (state, PeerAction::Nothing),
    }
}

/// Decides what an event does to a connection in a given state.
pub fn transition(state: PeerState, event: PeerEvent) -> (next: (PeerState, PeerAction))
    ensures
        next == step(state, event),
{
    match state {
        PeerState::EntryPoint => match event {
            PeerEvent::Preflight => (PeerState::Disconnected, PeerAction::CreateSession),
            PeerEvent::Join => (PeerState::SessionMember, PeerAction::AdmitMember),
            PeerEvent::Disconnect => (PeerState::Disconnected, PeerAction::Nothing),
            _ => (state, PeerAction::Nothing),
        },
        PeerState::SessionMember => match event {
            PeerEvent::Broadcast => (PeerState::SessionMember, PeerAction::FanOut),
            PeerEvent::Request => (PeerState::SessionMember, PeerAction::ForwardToOne),
            PeerEvent::Disconnect => (PeerState::Disconnected, PeerAction::NotifyMemberLeft),
            _ => (state, PeerAction::Nothing),
        },
        PeerState::Disconnected => (state, PeerAction::Nothing),
    }
}

/// A disconnected peer stays disconnected and nothing is done for it;
/// traffic inside a session is only carried for a member, who stays one;
/// and a session is only created from the entry point, which the peer
/// then leaves.
pub proof fn lemma_step_shape(state: PeerState, event: PeerEvent)
    ensures
        step(PeerState::Disconnected, event) == (PeerState::Disconnected, PeerAction::Nothing),
        step(state, event).1 == PeerAction::FanOut || step(state, event).1
            == PeerAction::ForwardToOne ==> state == PeerState::SessionMember && step(
            state,
            event,
        ).0 == PeerState::SessionMember,
        step(state, event).1 == PeerAction::CreateSession ==> state == PeerState::EntryPoint
            && step(state, event).0 == PeerState::Disconnected,
        step(state, event).1 == PeerAction::NotifyMemberLeft ==> state
            == PeerState::SessionMember && step(state, event).0 == PeerState::Disconnected,
{
}

/// That `name` was free in `before` and is what `after` holds beyond it.
pub open spec fn registered(before: Set<Seq<char>>, name: Seq<char>, after: Set<Seq<char>>) -> bool {
    !before.contains(name) && after == before.insert(name)
}

/// Handles a preflight: draws a session name of `len` characters that no
/// active session has, and records it before anyone else can see it.
///
/// Where no free name is found the registry is left as it was. That can
/// only happen where an active session has a name of the shape drawn.
pub fn preflight(store: &mut NamespaceStore, len: usize) -> (r: Result<
    ClientPreflightResponse,
    RelayError,
>)
    requires
        old(store).wf(),
        len <= isize::MAX,
    ensures
        final(store).wf(),
        match r {
            Ok(response) => is_session_name(response.ns@, len as nat) && registered(
                old(store)@,
                response.ns@,
                final(store)@,
            ),
            Err(e) => e == RelayError::SessionIdExhausted && final(store)@ == old(store)@
                && exists|name: Seq<char>| #[trigger]
                old(store)@.contains(name) && is_session_name(name, len as nat),
        },
{
    let namespaces = store.get_all();
    match create_random_namespace(&namespaces, len) {
        Ok(generated) => {
            store.insert(generated.clone());
            Ok(ClientPreflightResponse { ns: generated })
        },
        Err(e) => {
            proof {
                let k = choose|k: int|
                    0 <= k < namespaces.len() && is_session_name(
                        #[trigger] names_of(namespaces@)[k],
                        len as nat,
                    );
                assert(names_of(namespaces@).to_set().contains(names_of(namespaces@)[k]));
            }
            Err(e)
        },
    }
}

/// Two preflights in a row give two different names, and the registry holds
/// both afterwards.
pub proof fn lemma_preflights_distinct(
    s0: Set<Seq<char>>,
    first: Seq<char>,
    s1: Set<Seq<char>>,
    second: Seq<char>,
    s2: Set<Seq<char>>,
)
    requires
        registered(s0, first, s1),
        registered(s1, second, s2),
    ensures
        first != second,
        s2.contains(first),
        s2.contains(second),
{
}

/// A recorded name stays in the registry until it is itself removed: no
/// insertion and no removal of another name takes it out.
pub proof fn lemma_name_stays(names: Set<Seq<char>>, name: Seq<char>, other: Seq<char>)
    requires
        names.contains(name),
    ensures
        names.insert(other).contains(name),
        other != name ==> names.remove(other).contains(name),
        !names.remove(name).contains(name),
{
}

/// A name drawn against a snapshot differs from every name that the
/// snapshot still holds, so from every name drawn earlier and not yet
/// removed.
pub proof fn lemma_drawn_name_is_new(active: Seq<Seq<char>>, earlier: Seq<char>, drawn: Seq<char>)
    requires
        active.contains(earlier),
        !active.contains(drawn),
    ensures
        earlier != drawn,
{
}

/// What one outcome of a fan-out contributes: the acknowledgement if it came
/// in time, nothing otherwise.
pub open spec fn arrival() -> spec_fn(Result<AckResponse, RelayError>) -> Option<AckView> {
    |outcome: Result<AckResponse, RelayError>|
        match outcome {
            Ok(ack) => Some(ack@),
            Err(_) => None,
        }
}

/// The acknowledgements that came in time, in arrival order.
pub open spec fn arrived(outcomes: Seq<Result<AckResponse, RelayError>>) -> Seq<AckView> {
    outcomes.filter_map(arrival())
}

/// The JSON half of an acknowledgement, tagged with its responder.
pub open spec fn response_of(ack: AckView) -> ClientDataView {
    ClientDataView { id: ack.id, data: ack.data }
}

/// The merged answer for a list of acknowledgements: one response each, in
/// order, and their attachments laid end to end in the same order.
pub open spec fn merged(acks: Seq<AckView>) -> AggregateView {
    AggregateView {
        responder_count: acks.len(),
        responses: acks.map_values(|a: AckView| response_of(a)),
        attachments: acks.map_values(|a: AckView| a.binary).flatten(),
    }
}

/// Merging one more acknowledgement appends its response and its
/// attachments.
pub proof fn lemma_merged_push(acks: Seq<AckView>, ack: AckView)
    ensures
        merged(acks.push(ack)).responder_count == merged(acks).responder_count + 1,
        merged(acks.push(ack)).responses == merged(acks).responses.push(response_of(ack)),
        merged(acks.push(ack)).attachments == merged(acks).attachments + ack.binary,
{
    let blocks = acks.map_values(|a: AckView| a.binary);
    assert(acks.push(ack).map_values(|a: AckView| a.binary) =~= blocks.push(ack.binary));
    blocks.lemma_flatten_push(ack.binary);
}

/// Merges the outcomes of a fan-out, given in arrival order, into one
/// answer. Outcomes that are errors (a peer that timed out, an answer that
/// could not be decoded) contribute nothing and are not reported: they only
/// make the count lower.
pub fn collect(outcomes: &Vec<Result<AckResponse, RelayError>>) -> (answer: AggregateResponse)
    ensures
        answer@ == merged(arrived(outcomes@)),
{
    let mut responses: Vec<ClientData> = Vec::new();
    let mut attachments: Vec<Vec<u8>> = Vec::new();
    let mut i: usize = 0;
    while i < outcomes.len()
        invariant
            i <= outcomes.len(),
            responses.len() == arrived(outcomes@.take(i as int)).len(),
            data_views(responses@) == merged(arrived(outcomes@.take(i as int))).responses,
            attachments.deep_view() == merged(arrived(outcomes@.take(i as int))).attachments,
        decreases outcomes.len() - i,
    {
        let ghost seen = arrived(outcomes@.take(i as int));
        proof {
            outcomes@.lemma_filter_map_take_succ(arrival(), i as int);
        }
        match &outcomes[i] {
            Ok(ack) => {
                let entry = ClientData { id: ack.id.duplicate(), data: ack.data.clone() };
                responses.push(entry);
                append_blocks(&mut attachments, &ack.binary);
                proof {
                    assert(arrived(outcomes@.take(i + 1)) =~= seen.push(ack@));
                    lemma_merged_push(seen, ack@);
                }
            },
            Err(_) => {},
        }
        i += 1;
    }
    assert(outcomes@.take(outcomes.len() as int) =~= outcomes@);
    AggregateResponse { responder_count: responses.len(), responses, attachments }
}

/// The merged answer has one response for each acknowledgement that came
/// in time and never more than there were targets; where every target
/// answered in time it has one for each of them.
pub proof fn lemma_responder_count(outcomes: Seq<Result<AckResponse, RelayError>>)
    ensures
        merged(arrived(outcomes)).responder_count == arrived(outcomes).len(),
        merged(arrived(outcomes)).responses.len() == arrived(outcomes).len(),
        arrived(outcomes).len() <= outcomes.len(),
        (forall|i: int| 0 <= i < outcomes.len() ==> (#[trigger] outcomes[i]) is Ok)
            ==> arrived(outcomes).len() == outcomes.len(),
        (exists|i: int| 0 <= i < outcomes.len() && (#[trigger] outcomes[i]) is Err)
            ==> arrived(outcomes).len() < outcomes.len(),
    decreases outcomes.len(),
{
    if outcomes.len() > 0 {
        let init = outcomes.drop_last();
        lemma_responder_count(init);
        assert forall|i: int| 0 <= i < init.len() implies init[i] == outcomes[i] by {}
    }
}

/// What the sender of a broadcast is answered once the wait has ended: the
/// merged answer in its wire form, and the attachments beside it.
pub fn broadcast_reply(outcomes: &Vec<Result<AckResponse, RelayError>>) -> (out: (
    serde_json::Value,
    Vec<Vec<u8>>,
))
    ensures
        json_view(out.0) == aggregate_json(merged(arrived(outcomes@))),
        out.1.deep_view() == merged(arrived(outcomes@)).attachments,
{
    let answer = collect(outcomes);
    let document = answer.to_json();
    (document, answer.attachments)
}

/// What becomes of a session that its last member has left.
#[derive(Debug, Clone, Copy, PartialEq, Eq, Structural)]
pub enum EmptyPolicy {
    /// The session stays registered and can be joined again.
    Keep,
    /// The session is taken out of the registry.
    Remove,
}

impl Default for EmptyPolicy {
    fn default() -> (policy: EmptyPolicy)
        ensures
            policy == EmptyPolicy::Keep,
    {
        EmptyPolicy::Keep
    }
}

/// To be called when a peer has left `session`: takes the session out of
/// the registry if it has no member left and the policy says so.
pub fn on_member_left(store: &mut NamespaceStore, session: &Session, policy: EmptyPolicy) -> (removed:
    bool)
    requires
        old(store).wf(),
    ensures
        final(store).wf(),
        removed == (policy == EmptyPolicy::Remove && session@.members.len() == 0),
        final(store)@ == if removed {
            old(store)@.remove(session@.ns)
        } else {
            old(store)@
        },
{
    match policy {
        EmptyPolicy::Keep => false,
        EmptyPolicy::Remove => {
            if session.is_empty() {
                store.remove(session.ns().clone());
                true
            } else {
                false
            }
        },
    }
}

/// The endpoint on which the session named `ns` is reached: a slash, then
/// the name.
pub fn endpoint(ns: &str) -> (path: String)
    ensures
        path@ == seq!['/'] + ns@,
{
    let mut path = String::from_str("/");
    proof {
        reveal_strlit("/");
    }
    path.append(ns);
    path
}

/// Decides what the requester is sent once its target has answered or the
/// wait has ended: the answer reshaped, or nothing at all. A requester that
/// is sent nothing must give up on its own.
pub fn forward_reply(outcome: &Result<AckResponse, RelayError>) -> (reply: Option<
    (serde_json::Value, Vec<Vec<u8>>),
>)
    ensures
        match *outcome {
            Ok(ack) => reply matches Some(out) && json_view(out.0) == ack.transformed().0
                && out.1.deep_view() == ack.transformed().1,
            Err(_) => reply is None,
        },
{
    match outcome {
        Ok(ack) => Some(ack.transform_response()),
        Err(_) => None,
    }
}

} // verus!
