//! The forwarding-aware handler layer: decides, per operation, whether the
//! node serves the request from its own store or relays it verbatim to the
//! configured upstream address, and shapes the response either way.
//!
//! Validation order for a put is fixed as a contract: body presence first
//! (in every mode), then the forwarding dispatch, then the key-length check
//! (local mode only).

use vstd::prelude::*;
use vstd::string::*;

use crate::store::DeleteOutcome;
use crate::store::PutOutcome;
use crate::store::Store;

verus! {

/// Largest accepted key length, in characters.
pub const MAX_KEY_LEN: usize = 50;

/// HTTP status for a successful read, replacement, or deletion.
pub const STATUS_OK: u16 = 200;

/// HTTP status for a put that created a fresh key.
pub const STATUS_CREATED: u16 = 201;

/// HTTP status for a request rejected by validation.
pub const STATUS_BAD_REQUEST: u16 = 400;

/// HTTP status for an operation on an absent key.
pub const STATUS_NOT_FOUND: u16 = 404;

/// HTTP status for an upstream reply that could not be decoded.
pub const STATUS_INTERNAL_ERROR: u16 = 500;

/// HTTP status for a relay that could not be completed.
pub const STATUS_UNAVAILABLE: u16 = 503;

/// The operation kind of a relayed request.
#[derive(Clone, Copy, Debug, PartialEq, Eq, Structural)]
pub enum Method {
    Put,
    Get,
    Delete,
}

/// A response body, one variant per payload the node can produce. Its JSON
/// text is given by `spec_json` and produced by `to_json`.
#[derive(Clone, Debug, PartialEq)]
pub enum Body {
    /// `{"result":"created"}`: a put bound a fresh key.
    Created,
    /// `{"result":"replaced"}`: a put overwrote an existing binding.
    Replaced,
    /// `{"result":"deleted"}`: a delete removed a binding.
    Deleted,
    /// `{"result":"found","value":…}`: a get found the held value.
    Found(String),
    /// `{"error":"Key is too long"}`: the key exceeds `MAX_KEY_LEN`.
    KeyTooLong,
    /// `{"error":"PUT request does not specify a value"}`: a put came
    /// without a body.
    MissingValue,
    /// `{"error":"Key does not exist"}`: a get or delete on an absent key.
    KeyNotFound,
    /// `{"error":"Cannot forward request"}`: the relay could not be
    /// completed.
    CannotForward,
    /// `{"error":"Failed to parse JSON response: …"}`: the upstream reply
    /// was not decodable; carries the decoder's detail text.
    DecodeFailure(String),
    /// An upstream body returned to the caller unchanged.
    Passthrough(String),
}

/// What the node answers: an HTTP status code and a body.
#[derive(Clone, Debug, PartialEq)]
pub struct Response {
    pub status: u16,
    pub body: Body,
}

/// A request to relay verbatim to the upstream node.
#[derive(Clone, Debug, PartialEq)]
pub struct RelayRequest {
    pub method: Method,
    /// The configured upstream address (host and port).
    pub target: String,
    pub key: String,
    /// The JSON body to pass along; present exactly for a put.
    pub body: Option<String>,
}

/// A handler's decision: either the finished response, or a relay that the
/// caller must perform, feeding its outcome to `forward_response`.
#[derive(Clone, Debug, PartialEq)]
pub enum Step {
    Done(Response),
    Forward(RelayRequest),
}

/// How a relay ended, as reported back by the caller that performed it.
#[derive(Clone, Debug, PartialEq)]
pub enum RelayOutcome {
    /// The upstream answered with this status and decodable body text.
    Delivered { status: u16, body: String },
    /// The relay could not be completed (connection failure or timeout).
    Unreachable,
    /// The upstream answered, but its body was not decodable; carries the
    /// decoder's detail text.
    Malformed(String),
}

/// One node: its own store, and the optional upstream address that, when
/// present, switches every operation into forwarding mode.
pub struct Node {
    pub store: Store,
    pub forwarding_address: Option<String>,
}

impl Body {
    /// The JSON text of this body.
    pub open spec fn spec_json(&self) -> Seq<char> {
        match self {
            Body::Created => "{\"result\":\"created\"}"@,
            Body::Replaced => "{\"result\":\"replaced\"}"@,
            Body::Deleted => "{\"result\":\"deleted\"}"@,
            Body::Found(v) => "{\"result\":\"found\",\"value\":"@ + v@ + "}"@,
            Body::KeyTooLong => "{\"error\":\"Key is too long\"}"@,
            Body::MissingValue => "{\"error\":\"PUT request does not specify a value\"}"@,
            Body::KeyNotFound => "{\"error\":\"Key does not exist\"}"@,
            Body::CannotForward => "{\"error\":\"Cannot forward request\"}"@,
            Body::DecodeFailure(d) => "{\"error\":\"Failed to parse JSON response: "@ + d@
                + "\"}"@,
            Body::Passthrough(b) => b@,
        }
    }

    /// Renders this body as its JSON text.
    pub fn to_json(&self) -> (text: String)
        ensures
            text@ == self.spec_json(),
    {
        match self {
            Body::Created => String::from_str("{\"result\":\"created\"}"),
            Body::Replaced => String::from_str("{\"result\":\"replaced\"}"),
            Body::Deleted => String::from_str("{\"result\":\"deleted\"}"),
            Body::Found(v) => {
                let mut text = String::from_str("{\"result\":\"found\",\"value\":");
                text.append(v.as_str());
                text.append("}");
                text
            },
            Body::KeyTooLong => String::from_str("{\"error\":\"Key is too long\"}"),
            Body::MissingValue => String::from_str(
                "{\"error\":\"PUT request does not specify a value\"}",
            ),
            Body::KeyNotFound => String::from_str("{\"error\":\"Key does not exist\"}"),
            Body::CannotForward => String::from_str("{\"error\":\"Cannot forward request\"}"),
            Body::DecodeFailure(d) => {
                let mut text = String::from_str("{\"error\":\"Failed to parse JSON response: ");
                text.append(d.as_str());
                text.append("\"}");
                text
            },
            Body::Passthrough(b) => b.clone(),
        }
    }
}

/// The URL that a relayed request is sent to.
pub fn relay_url(request: &RelayRequest) -> (url: String)
    ensures
        url@ == "http://"@ + request.target@ + "/kvs/"@ + request.key@,
{
    let mut url = String::from_str("http://");
    url.append(request.target.as_str());
    url.append("/kvs/");
    url.append(request.key.as_str());
    url
}

/// The response owed for each way a relay can end: the upstream's status
/// and body pass through unchanged; an uncompleted relay yields 503; an
/// undecodable upstream reply yields 500 with the decoder's detail.
pub fn forward_response(outcome: RelayOutcome) -> (resp: Response)
    ensures
        outcome matches RelayOutcome::Delivered { status, body } ==> resp.status == status && (
        resp.body matches Body::Passthrough(b) && b@ == body@),
        outcome is Unreachable ==> resp == (Response {
            status: STATUS_UNAVAILABLE,
            body: Body::CannotForward,
        }),
        outcome matches RelayOutcome::Malformed(d) ==> resp.status == STATUS_INTERNAL_ERROR && (
        resp.body matches Body::DecodeFailure(e) && e@ == d@),
{
    match outcome {
        RelayOutcome::Delivered { status, body } => Response {
            status,
            body: Body::Passthrough(body),
        },
        RelayOutcome::Unreachable => Response {
            status: STATUS_UNAVAILABLE,
            body: Body::CannotForward,
        },
        RelayOutcome::Malformed(detail) => Response {
            status: STATUS_INTERNAL_ERROR,
            body: Body::DecodeFailure(detail),
        },
    }
}

impl Node {
    /// A fresh node with an empty store.
    pub fn new(forwarding_address: Option<String>) -> (n: Node)
        ensures
            n.store@ == Map::<Seq<char>, Seq<char>>::empty(),
            n.forwarding_address == forwarding_address,
    {
        Node { store: Store::new(), forwarding_address }
    }

    /// Handles a put of `value` (the JSON text of the request body, absent
    /// when the request carried none) under `key`. Checked in this order:
    /// a missing body is rejected in every mode; with forwarding configured
    /// the request is relayed and the store untouched; locally, an overlong
    /// key is rejected, and otherwise the binding is created or replaced.
    pub fn handle_put(&mut self, key: String, value: Option<String>) -> (step: Step)
        ensures
            final(self).forwarding_address == old(self).forwarding_address,
            value is None ==> final(self).store@ == old(self).store@ && step == (Step::Done(
                Response { status: STATUS_BAD_REQUEST, body: Body::MissingValue },
            )),
            value is Some && old(self).forwarding_address is Some ==> final(self).store@ == old(
                self,
            ).store@ && (step matches Step::Forward(r) && r.method == Method::Put && r.target@
                == old(self).forwarding_address->0@ && r.key@ == key@ && r.body is Some
                && r.body->0@ == value->0@),
            value is Some && old(self).forwarding_address is None && key@.len() > MAX_KEY_LEN
                ==> final(self).store@ == old(self).store@ && step == (Step::Done(
                Response { status: STATUS_BAD_REQUEST, body: Body::KeyTooLong },
            )),
            value is Some && old(self).forwarding_address is None && key@.len() <= MAX_KEY_LEN
                ==> final(self).store@ == old(self).store@.insert(key@, value->0@) && (old(
                self,
            ).store@.contains_key(key@) ==> step == (Step::Done(
                Response { status: STATUS_OK, body: Body::Replaced },
            ))) && (!old(self).store@.contains_key(key@) ==> step == (Step::Done(
                Response { status: STATUS_CREATED, body: Body::Created },
            ))),
    {
        match value {
            None => Step::Done(Response { status: STATUS_BAD_REQUEST, body: Body::MissingValue }),
            Some(v) => {
                if let Some(address) = &self.forwarding_address {
                    Step::Forward(
                        RelayRequest {
                            method: Method::Put,
                            target: address.clone(),
                            key,
                            body: Some(v),
                        },
                    )
                } else if key.as_str().unicode_len() > MAX_KEY_LEN {
                    Step::Done(Response { status: STATUS_BAD_REQUEST, body: Body::KeyTooLong })
                } else {
                    match self.store.put(key, v) {
                        PutOutcome::Created => Step::Done(
                            Response { status: STATUS_CREATED, body: Body::Created },
                        ),
                        PutOutcome::Replaced => Step::Done(
                            Response { status: STATUS_OK, body: Body::Replaced },
                        ),
                    }
                }
            },
        }
    }

    /// Handles a get of `key`: relayed when forwarding is configured;
    /// otherwise answered from the store, with the held value on a hit and
    /// 404 on a miss. Never changes the store.
    pub fn handle_get(&self, key: String) -> (step: Step)
        ensures
            self.forwarding_address is Some ==> (step matches Step::Forward(r) && r.method
                == Method::Get && r.target@ == self.forwarding_address->0@ && r.key@ == key@
                && r.body is None),
            self.forwarding_address is None && self.store@.contains_key(key@) ==> (
            step matches Step::Done(resp) && resp.status == STATUS_OK && (
            resp.body matches Body::Found(v) && v@ == self.store@[key@])),
            self.forwarding_address is None && !self.store@.contains_key(key@) ==> step == (
            Step::Done(Response { status: STATUS_NOT_FOUND, body: Body::KeyNotFound })),
    {
        if let Some(address) = &self.forwarding_address {
            Step::Forward(
                RelayRequest { method: Method::Get, target: address.clone(), key, body: None },
            )
        } else {
            match self.store.get(&key) {
                Some(value) => Step::Done(
                    Response { status: STATUS_OK, body: Body::Found(value.clone()) },
                ),
                None => Step::Done(Response { status: STATUS_NOT_FOUND, body: Body::KeyNotFound }),
            }
        }
    }

    /// Handles a delete of `key`: relayed when forwarding is configured
    /// (store untouched); otherwise the binding is removed if present, and
    /// 404 answered if not.
    pub fn handle_delete(&mut self, key: String) -> (step: Step)
        ensures
            final(self).forwarding_address == old(self).forwarding_address,
            old(self).forwarding_address is Some ==> final(self).store@ == old(self).store@ && (
            step matches Step::Forward(r) && r.method == Method::Delete && r.target@ == old(
                self,
            ).forwarding_address->0@ && r.key@ == key@ && r.body is None),
            old(self).forwarding_address is None ==> final(self).store@ == old(self).store@.remove(key@) && (old(self).store@.contains_key(key@) ==> step == (Step::Done(
                Response { status: STATUS_OK, body: Body::Deleted },
            ))) && (!old(self).store@.contains_key(key@) ==> step == (Step::Done(
                Response { status: STATUS_NOT_FOUND, body: Body::KeyNotFound },
            ))),
    {
        if let Some(address) = &self.forwarding_address {
            Step::Forward(
                RelayRequest { method: Method::Delete, target: address.clone(), key, body: None },
            )
        } else {
            match self.store.delete(&key) {
                DeleteOutcome::Deleted => Step::Done(
                    Response { status: STATUS_OK, body: Body::Deleted },
                ),
                DeleteOutcome::Missing => Step::Done(
                    Response { status: STATUS_NOT_FOUND, body: Body::KeyNotFound },
                ),
            }
        }
    }
}

/// Putting a value and then getting its key finds exactly the value that
/// was put, for any accepted key: an insertion binds the key to the full
/// new value.
pub proof fn lemma_put_then_get(m: Map<Seq<char>, Seq<char>>, k: Seq<char>, v: Seq<char>)
    requires
        k.len() <= MAX_KEY_LEN,
    ensures
        m.insert(k, v).contains_key(k),
        m.insert(k, v)[k] == v,
{
}

/// A put on an already-present key overwrites the old binding with the new
/// value whole — nothing of the old value is merged in.  Equally: of
/// several puts to one key, serialized by the store's lock, the last
/// writer's value is the one left bound.
pub proof fn lemma_put_same_key_last_wins(
    m: Map<Seq<char>, Seq<char>>,
    k: Seq<char>,
    v1: Seq<char>,
    v2: Seq<char>,
)
    ensures
        m.insert(k, v1).insert(k, v2).contains_key(k),
        m.insert(k, v1).insert(k, v2)[k] == v2,
{
}

/// After a delete of a key that key is absent, so a subsequent get of it
/// misses and a second delete of it in a row reports it missing; every
/// other key's binding is untouched.
pub proof fn lemma_delete_then_absent(m: Map<Seq<char>, Seq<char>>, k: Seq<char>)
    ensures
        !m.remove(k).contains_key(k),
        m.remove(k).remove(k) == m.remove(k),
        forall|k2: Seq<char>|
            k2 != k ==> (#[trigger] m.remove(k).contains_key(k2)) == m.contains_key(k2),
        forall|k2: Seq<char>|
            k2 != k && m.contains_key(k2) ==> (#[trigger] m.remove(k)[k2]) == m[k2],
{
    assert(m.remove(k).remove(k) =~= m.remove(k));
}

/// Puts to distinct keys are independent: after a put of each of two
/// different keys, in whichever order the two were serialized, each key is
/// bound to its own value and both are retrievable.
pub proof fn lemma_distinct_puts_independent(
    m: Map<Seq<char>, Seq<char>>,
    k1: Seq<char>,
    k2: Seq<char>,
    v1: Seq<char>,
    v2: Seq<char>,
)
    requires
        k1 != k2,
    ensures
        m.insert(k1, v1).insert(k2, v2).contains_key(k1),
        m.insert(k1, v1).insert(k2, v2).contains_key(k2),
        m.insert(k1, v1).insert(k2, v2)[k1] == v1,
        m.insert(k1, v1).insert(k2, v2)[k2] == v2,
{
}

} // verus!
