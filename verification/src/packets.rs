//! The messages that cross the relay.

use crate::data::ClientId;
use crate::error::RelayError;
use crate::json::{
    json_view, json_views, no_entries, object_insert, object_new, value_array, value_count,
    value_object, value_text, Json,
};
use vstd::prelude::*;

verus! {

/// Answer to a preflight: the name of the session that was created.
#[derive(Debug, Clone)]
pub struct ClientPreflightResponse {
    pub ns: String,
}

/// A payload together with the peer it comes from: the envelope sent to the
/// targets of a broadcast or request, and one entry of the merged answer.
#[derive(Debug, Clone)]
pub struct ClientData {
    pub id: ClientId,
    pub data: serde_json::Value,
}

/// Notice to the remaining members that a peer has left the session.
#[derive(Debug, Clone)]
pub struct ClientDisconnected {
    pub id: ClientId,
}

/// One peer's acknowledgement as the transport delivered it: who answered,
/// the JSON half and the binary half of the answer.
#[derive(Debug, Clone)]
pub struct AckResponse {
    pub id: ClientId,
    pub data: serde_json::Value,
    pub binary: Vec<Vec<u8>>,
}

/// The merged answer to a broadcast.
///
/// The attachments of all responders lie in one list, each responder's in
/// one run, in the order of `responses`. No count per responder is carried,
/// on purpose: the wire format is kept as peers know it. A receiver can tell
/// the runs apart only if every responder sent the same number of
/// attachments, and nothing here checks that they did.
#[derive(Debug, Clone)]
pub struct AggregateResponse {
    pub responder_count: usize,
    pub responses: Vec<ClientData>,
    pub attachments: Vec<Vec<u8>>,
}

/// Model of a [`ClientData`].
pub struct ClientDataView {
    pub id: Seq<char>,
    pub data: Json,
}

/// Model of an [`AckResponse`].
pub struct AckView {
    pub id: Seq<char>,
    pub data: Json,
    pub binary: Seq<Seq<u8>>,
}

/// Model of an [`AggregateResponse`].
pub struct AggregateView {
    pub responder_count: nat,
    pub responses: Seq<ClientDataView>,
    pub attachments: Seq<Seq<u8>>,
}

impl View for ClientData {
    type V = ClientDataView;

    open spec fn view(&self) -> ClientDataView {
        ClientDataView { id: self.id@, data: json_view(self.data) }
    }
}

impl View for AckResponse {
    type V = AckView;

    open spec fn view(&self) -> AckView {
        AckView { id: self.id@, data: json_view(self.data), binary: self.binary.deep_view() }
    }
}

impl View for AggregateResponse {
    type V = AggregateView;

    open spec fn view(&self) -> AggregateView {
        AggregateView {
            responder_count: self.responder_count as nat,
            responses: data_views(self.responses@),
            attachments: self.attachments.deep_view(),
        }
    }
}

/// The models of a list of [`ClientData`], in order.
pub open spec fn data_views(items: Seq<ClientData>) -> Seq<ClientDataView> {
    items.map_values(|d: ClientData| d@)
}

/// The JSON object `{ "sessionId": ns }`.
pub open spec fn preflight_json(ns: Seq<char>) -> Json {
    Json::Object(no_entries().insert("sessionId"@, Json::Text(ns)))
}

/// The JSON object `{ "error": code }`.
pub open spec fn failure_json(code: Seq<char>) -> Json {
    Json::Object(no_entries().insert("error"@, Json::Text(code)))
}

/// The JSON object `{ "responderId": id }`.
pub open spec fn member_left_json(id: Seq<char>) -> Json {
    Json::Object(no_entries().insert("responderId"@, Json::Text(id)))
}

/// The JSON object `{ "senderId": id, "payload": data }`.
pub open spec fn envelope_json(d: ClientDataView) -> Json {
    Json::Object(no_entries().insert("senderId"@, Json::Text(d.id)).insert("payload"@, d.data))
}

/// The JSON object `{ "responderId": id, "data": data }`.
pub open spec fn response_json(d: ClientDataView) -> Json {
    Json::Object(no_entries().insert("responderId"@, Json::Text(d.id)).insert("data"@, d.data))
}

/// The JSON object `{ "responderCount": n, "responses": [...] }`, each
/// response as [`response_json`] gives it.
pub open spec fn aggregate_json(a: AggregateView) -> Json {
    Json::Object(
        no_entries().insert("responderCount"@, Json::Number(a.responder_count as int)).insert(
            "responses"@,
            Json::Array(a.responses.map_values(|d: ClientDataView| response_json(d))),
        ),
    )
}

/// A copy of one binary block.
pub fn copy_bytes(block: &Vec<u8>) -> (copy: Vec<u8>)
    ensures
        copy@ == block@,
{
    let mut copy: Vec<u8> = Vec::new();
    let mut j: usize = 0;
    while j < block.len()
        invariant
            j <= block.len(),
            copy@ == block@.take(j as int),
        decreases block.len() - j,
    {
        copy.push(block[j]);
        j += 1;
    }
    copy
}

/// Appends copies of the blocks of `src` to `dst`, in order.
pub fn append_blocks(dst: &mut Vec<Vec<u8>>, src: &Vec<Vec<u8>>)
    ensures
        final(dst).deep_view() == old(dst).deep_view() + src.deep_view(),
{
    let ghost before = dst.deep_view();
    let mut i: usize = 0;
    while i < src.len()
        invariant
            i <= src.len(),
            dst.deep_view() == before + src.deep_view().take(i as int),
        decreases src.len() - i,
    {
        let block = copy_bytes(&src[i]);
        dst.push(block);
        assert(before + src.deep_view().take(i + 1) =~= (before + src.deep_view().take(
            i as int,
        )).push(src[i as int].deep_view()));
        i += 1;
    }
}

/// A copy of a list of binary blocks.
pub fn copy_blocks(blocks: &Vec<Vec<u8>>) -> (copy: Vec<Vec<u8>>)
    ensures
        copy.deep_view() == blocks.deep_view(),
{
    let mut copy: Vec<Vec<u8>> = Vec::new();
    append_blocks(&mut copy, blocks);
    copy
}

/// The wire form of an acknowledgement that reports a failure.
pub fn failure(error: RelayError) -> (v: serde_json::Value)
    ensures
        json_view(v) == failure_json(error.code_of()),
{
    let mut entries = object_new();
    object_insert(&mut entries, "error".to_owned(), value_text(error.code().to_owned()));
    value_object(entries)
}

impl ClientPreflightResponse {
    /// The wire form of the answer to a preflight.
    pub fn to_json(&self) -> (v: serde_json::Value)
        ensures
            json_view(v) == preflight_json(self.ns@),
    {
        let mut entries = object_new();
        object_insert(&mut entries, "sessionId".to_owned(), value_text(self.ns.clone()));
        value_object(entries)
    }
}

impl ClientDisconnected {
    /// The wire form of the notice that a peer has left.
    pub fn to_json(&self) -> (v: serde_json::Value)
        ensures
            json_view(v) == member_left_json(self.id@),
    {
        let mut entries = object_new();
        object_insert(&mut entries, "responderId".to_owned(), value_text(self.id.0.clone()));
        value_object(entries)
    }
}

impl ClientData {
    /// The wire form of an envelope: the payload of a broadcast or request
    /// on its way to a target, beside the peer that sent it.
    pub fn to_envelope(&self) -> (v: serde_json::Value)
        ensures
            json_view(v) == envelope_json(self@),
    {
        let mut entries = object_new();
        object_insert(&mut entries, "senderId".to_owned(), value_text(self.id.0.clone()));
        object_insert(&mut entries, "payload".to_owned(), self.data.clone());
        value_object(entries)
    }

    /// The wire form of one response: the data that a peer answered with,
    /// beside that peer.
    pub fn to_response(&self) -> (v: serde_json::Value)
        ensures
            json_view(v) == response_json(self@),
    {
        let mut entries = object_new();
        object_insert(&mut entries, "responderId".to_owned(), value_text(self.id.0.clone()));
        object_insert(&mut entries, "data".to_owned(), self.data.clone());
        value_object(entries)
    }
}

/// Turns an acknowledgement into what is handed on: the JSON document that
/// names the responder beside its data, and the binary blocks unchanged.
pub trait AckResponseExt {
    /// The document and the blocks that [`Self::transform_response`] gives.
    spec fn transformed(&self) -> (Json, Seq<Seq<u8>>);

    fn transform_response(&self) -> (out: (serde_json::Value, Vec<Vec<u8>>))
        ensures
            json_view(out.0) == self.transformed().0,
            out.1.deep_view() == self.transformed().1,
    ;
}

impl AckResponseExt for AckResponse {
    open spec fn transformed(&self) -> (Json, Seq<Seq<u8>>) {
        (response_json(ClientDataView { id: self@.id, data: self@.data }), self@.binary)
    }

    fn transform_response(&self) -> (out: (serde_json::Value, Vec<Vec<u8>>)) {
        let entry = ClientData { id: self.id.duplicate(), data: self.data.clone() };
        (entry.to_response(), copy_blocks(&self.binary))
    }
}

impl AggregateResponse {
    /// The wire form of the JSON half of the merged answer. The attachments
    /// travel beside it, as they are.
    pub fn to_json(&self) -> (v: serde_json::Value)
        ensures
            json_view(v) == aggregate_json(self@),
    {
        let mut items: Vec<serde_json::Value> = Vec::new();
        let mut i: usize = 0;
        while i < self.responses.len()
            invariant
                i <= self.responses.len(),
                items.len() == i,
                forall|k: int| 0 <= k < i ==> json_view(#[trigger] items[k]) == response_json(self.responses[k]@),
            decreases self.responses.len() - i,
        {
            let item = self.responses[i].to_response();
            items.push(item);
            i += 1;
        }
        assert(json_views(items@) =~= self@.responses.map_values(
            |d: ClientDataView| response_json(d),
        ));
        let mut entries = object_new();
        object_insert(&mut entries, "responderCount".to_owned(), value_count(self.responder_count));
        object_insert(&mut entries, "responses".to_owned(), value_array(items));
        value_object(entries)
    }
}

} // verus!
