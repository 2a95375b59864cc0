//! The overlay client's decision core. Every local command, inbound gossip
//! envelope, discovery event and stream event is dispatched through a
//! function here that mutates the client's owned state (peer registry and the
//! single call session) and returns the actions the surrounding event loop
//! must carry out (publishes, stream operations, timer control,
//! notifications). The loop performs I/O only; every decision is made here.
//!
//! Each call-affecting dispatch function is specified exactly by a spec-level
//! step function from the session before the event to the session after it
//! and the emitted actions; the proved laws about call handling are stated
//! over those step functions.
use vstd::prelude::*;

use crate::call::{Call, CallEndReason, CallState};
use crate::envelope::{AlertType, CallRequestRejectReason, CallRequestResponse, Property, PublishData};
use crate::peer::Peer;
use crate::peer_list::PeerList;

verus! {

/// An effect the event loop must carry out after a dispatch function
/// returns. The loop owns the sockets, streams, pipelines and timers; the
/// client only decides.
#[derive(Debug, Clone, PartialEq, Eq)]
pub enum Action {
    /// Encode the envelope and publish it on the shared gossip topic.
    Publish(PublishData),
    /// Begin opening the audio stream to the given peer; report completion
    /// through `handle_stream_opened`.
    OpenAudioStream { peer: u64 },
    /// Hand the stream whose open just completed to the inbound media
    /// pipeline.
    AttachOpenedStream,
    /// Close and drop the stream whose open just completed; it is stale.
    DiscardOpenedStream,
    /// Hand the inbound stream that just arrived to the outbound media
    /// pipeline.
    AttachInboundStream,
    /// Close and drop the inbound stream that just arrived.
    DiscardInboundStream,
    /// Add the peer to the gossip mesh's explicit peer set.
    AddExplicitPeer { peer: u64 },
    /// Remove the peer from the gossip mesh's explicit peer set.
    RemoveExplicitPeer { peer: u64 },
    /// Surface an alert from the given peer to the observer layer.
    AlertReceived { peer: u64, alert: AlertType },
    /// Surface the newly created incoming session to the observer layer.
    IncomingCall { peer: u64 },
    /// Gather the local property set and publish it.
    PublishOwnProperties,
    /// Start the periodic call-duration tick; emitted exactly when a session
    /// becomes ongoing.
    StartDurationTimer,
    /// Cancel the periodic call-duration tick; emitted exactly when a
    /// session leaves the ongoing state.
    StopDurationTimer,
    /// Send end-of-stream to the inbound media pipeline.
    SendInputEos,
    /// Send end-of-stream to the outbound media pipeline.
    SendOutputEos,
    /// The session ended for the given reason and was dropped.
    CallEnded { reason: CallEndReason },
}

/// Why a local command was refused.
#[derive(Debug, Clone, Copy, PartialEq, Eq, Structural)]
pub enum ClientError {
    /// A call session already exists.
    AlreadyInCall,
    /// There is no call session to act on.
    NoActiveCall,
    /// The destination peer is not in the registry.
    UnknownPeer,
}

/// The end reason reported for a remote rejection of our outgoing request.
pub open spec fn spec_reason_of_reject(r: CallRequestRejectReason) -> CallEndReason {
    match r {
        CallRequestRejectReason::AlreadyInCall => CallEndReason::PeerInAnotherCall,
        CallRequestRejectReason::RejectedByUser => CallEndReason::PeerRejected,
        CallRequestRejectReason::MutedByUser => CallEndReason::PeerMuted,
        CallRequestRejectReason::Other => CallEndReason::Other,
    }
}

/// The end reason reported for a remote rejection of our outgoing request.
pub fn reason_of_reject(r: CallRequestRejectReason) -> (e: CallEndReason)
    ensures
        e == spec_reason_of_reject(r),
{
    match r {
        CallRequestRejectReason::AlreadyInCall => CallEndReason::PeerInAnotherCall,
        CallRequestRejectReason::RejectedByUser => CallEndReason::PeerRejected,
        CallRequestRejectReason::MutedByUser => CallEndReason::PeerMuted,
        CallRequestRejectReason::Other => CallEndReason::Other,
    }
}

/// Whether every media direction that was ever attached has reported
/// closure: the join condition for tearing an ongoing session down.
pub open spec fn spec_teardown_complete(c: Call) -> bool {
    (c.input_closed || !c.input_attached) && (c.output_closed || !c.output_attached)
}

/// Step: local accept of an incoming request. Begins opening the audio
/// stream; stale in any other situation.
pub open spec fn step_incoming_accept(s: Option<Call>) -> (Option<Call>, Seq<Action>) {
    match s {
        Some(c) => {
            if c.state == CallState::Incoming && !c.opening {
                (
                    Some(Call { opening: true, ..c }),
                    seq![Action::OpenAudioStream { peer: c.peer }],
                )
            } else {
                (s, Seq::<Action>::empty())
            }
        },
        None => (s, Seq::<Action>::empty()),
    }
}

/// Step: local decline of an incoming request. Publishes the rejection and
/// ends the session; stale in any other situation.
pub open spec fn step_incoming_decline(s: Option<Call>) -> (Option<Call>, Seq<Action>) {
    match s {
        Some(c) => {
            if c.state == CallState::Incoming && !c.opening {
                (
                    None,
                    seq![
                        Action::Publish(
                            PublishData::CallRequestResponse {
                                destination: c.peer,
                                response: CallRequestResponse::Reject(
                                    CallRequestRejectReason::RejectedByUser,
                                ),
                            },
                        ),
                        Action::CallEnded { reason: CallEndReason::PeerRejected },
                    ],
                )
            } else {
                (s, Seq::<Action>::empty())
            }
        },
        None => (s, Seq::<Action>::empty()),
    }
}

/// Step: local cancel of an outgoing request. Publishes the cancel and ends
/// the session; stale when the session is not outgoing.
pub open spec fn step_outgoing_cancel(s: Option<Call>) -> (Option<Call>, Seq<Action>) {
    match s {
        Some(c) => {
            if c.state == CallState::Outgoing {
                (
                    None,
                    seq![
                        Action::Publish(PublishData::CallRequestCancel { destination: c.peer }),
                        Action::CallEnded { reason: CallEndReason::Other },
                    ],
                )
            } else {
                (s, Seq::<Action>::empty())
            }
        },
        None => (s, Seq::<Action>::empty()),
    }
}

/// Step: local hangup of an ongoing call. Sends end-of-stream to each media
/// direction that is attached and still open; the session ends later, when
/// the half-close signals come back in.
pub open spec fn step_ongoing_end(s: Option<Call>) -> (Option<Call>, Seq<Action>) {
    match s {
        Some(c) => {
            if c.state == CallState::Ongoing {
                (s, c.spec_teardown_actions())
            } else {
                (s, Seq::<Action>::empty())
            }
        },
        None => (s, Seq::<Action>::empty()),
    }
}

/// Step: a call request addressed to us arrived from `sender`. `known` says
/// whether the sender is in the registry, `allowed` the local policy verdict
/// for it. While any session exists the request is rejected at once, before
/// any suspension point; a request from a peer muted by policy creates no
/// session and surfaces nothing, but is answered with a structured
/// rejection.
pub open spec fn step_call_request_received(
    s: Option<Call>,
    sender: u64,
    known: bool,
    allowed: bool,
) -> (Option<Call>, Seq<Action>) {
    if s is Some {
        (
            s,
            seq![
                Action::Publish(
                    PublishData::CallRequestResponse {
                        destination: sender,
                        response: CallRequestResponse::Reject(
                            CallRequestRejectReason::AlreadyInCall,
                        ),
                    },
                ),
            ],
        )
    } else if !known {
        (s, Seq::<Action>::empty())
    } else if !allowed {
        (
            s,
            seq![
                Action::Publish(
                    PublishData::CallRequestResponse {
                        destination: sender,
                        response: CallRequestResponse::Reject(
                            CallRequestRejectReason::MutedByUser,
                        ),
                    },
                ),
            ],
        )
    } else {
        (
            Some(Call::spec_new(sender, CallState::Incoming)),
            seq![Action::IncomingCall { peer: sender }],
        )
    }
}

/// Step: a cancel addressed to us arrived from `sender`. It wins exactly
/// when it is observed strictly before the local accept or decline of an
/// incoming session with that peer; in every other situation it is stale and
/// dropped.
pub open spec fn step_cancel_received(s: Option<Call>, sender: u64) -> (Option<Call>, Seq<
    Action,
>) {
    match s {
        Some(c) => {
            if c.state == CallState::Incoming && !c.opening && c.peer == sender {
                (None, seq![Action::CallEnded { reason: CallEndReason::Cancelled }])
            } else {
                (s, Seq::<Action>::empty())
            }
        },
        None => (s, Seq::<Action>::empty()),
    }
}

/// Step: a response addressed to us arrived from `sender`. It is acted on
/// only for an outgoing session with that peer: an accept begins opening the
/// audio stream from this side, a reject ends the session with the mapped
/// reason. A response with no matching outgoing session is dropped.
pub open spec fn step_response_received(
    s: Option<Call>,
    sender: u64,
    response: CallRequestResponse,
) -> (Option<Call>, Seq<Action>) {
    match s {
        Some(c) => {
            if c.state == CallState::Outgoing && c.peer == sender {
                match response {
                    CallRequestResponse::Accept => {
                        if !c.opening {
                            (
                                Some(Call { opening: true, ..c }),
                                seq![Action::OpenAudioStream { peer: c.peer }],
                            )
                        } else {
                            (s, Seq::<Action>::empty())
                        }
                    },
                    CallRequestResponse::Reject(r) => {
                        (None, seq![Action::CallEnded { reason: spec_reason_of_reject(r) }])
                    },
                    CallRequestResponse::Cancelled => (s, Seq::<Action>::empty()),
                }
            } else {
                (s, Seq::<Action>::empty())
            }
        },
        None => (s, Seq::<Action>::empty()),
    }
}

/// Step: the audio stream open requested earlier completed. On success the
/// session becomes ongoing at instant `now_ms`, the opened stream is
/// attached as the inbound direction, and — for an accepted incoming request
/// — the accept response goes out. On failure the in-progress transition is
/// forced to an end rather than leaving the session stuck. A completion with
/// no session awaiting it is stale: a successfully opened stale stream is
/// torn down.
pub open spec fn step_stream_opened(s: Option<Call>, success: bool, now_ms: u64) -> (
    Option<Call>,
    Seq<Action>,
) {
    match s {
        Some(c) => {
            if c.opening {
                if success {
                    let c2 = Call {
                        opening: false,
                        input_attached: true,
                        state: CallState::Ongoing,
                        ongoing_since_ms: Some(now_ms),
                        ..c
                    };
                    if c.state == CallState::Incoming {
                        (
                            Some(c2),
                            seq![
                                Action::AttachOpenedStream,
                                Action::Publish(
                                    PublishData::CallRequestResponse {
                                        destination: c.peer,
                                        response: CallRequestResponse::Accept,
                                    },
                                ),
                                Action::StartDurationTimer,
                            ],
                        )
                    } else {
                        (Some(c2), seq![Action::AttachOpenedStream, Action::StartDurationTimer])
                    }
                } else {
                    (None, seq![Action::CallEnded { reason: CallEndReason::Other }])
                }
            } else {
                (
                    s,
                    if success {
                        seq![Action::DiscardOpenedStream]
                    } else {
                        Seq::<Action>::empty()
                    },
                )
            }
        },
        None => (
            s,
            if success {
                seq![Action::DiscardOpenedStream]
            } else {
                Seq::<Action>::empty()
            },
        ),
    }
}

/// Step: a peer opened a stream towards us. It is attached as the outbound
/// media direction exactly when a session with that peer exists and has no
/// outbound stream yet; any other stream is unexpected and dropped.
pub open spec fn step_inbound_stream(s: Option<Call>, from: u64) -> (Option<Call>, Seq<Action>) {
    match s {
        Some(c) => {
            if c.peer == from && !c.output_attached {
                (
                    Some(Call { output_attached: true, ..c }),
                    seq![Action::AttachInboundStream],
                )
            } else {
                (s, seq![Action::DiscardInboundStream])
            }
        },
        None => (s, seq![Action::DiscardInboundStream]),
    }
}

/// Step: the inbound media pipeline reported end-of-stream or error. The
/// session ends — once — when every attached direction has reported closure;
/// it remains ongoing while the outbound direction is still open.
pub open spec fn step_input_closed(s: Option<Call>) -> (Option<Call>, Seq<Action>) {
    match s {
        Some(c) => {
            if c.input_attached && !c.input_closed {
                let c2 = Call { input_closed: true, ..c };
                if c.state == CallState::Ongoing && spec_teardown_complete(c2) {
                    (
                        None,
                        seq![
                            Action::StopDurationTimer,
                            Action::CallEnded { reason: CallEndReason::Other },
                        ],
                    )
                } else {
                    (Some(c2), Seq::<Action>::empty())
                }
            } else {
                (s, Seq::<Action>::empty())
            }
        },
        None => (s, Seq::<Action>::empty()),
    }
}

/// Step: the outbound media pipeline reported end-of-stream or error; the
/// mirror of `step_input_closed`.
pub open spec fn step_output_closed(s: Option<Call>) -> (Option<Call>, Seq<Action>) {
    match s {
        Some(c) => {
            if c.output_attached && !c.output_closed {
                let c2 = Call { output_closed: true, ..c };
                if c.state == CallState::Ongoing && spec_teardown_complete(c2) {
                    (
                        None,
                        seq![
                            Action::StopDurationTimer,
                            Action::CallEnded { reason: CallEndReason::Other },
                        ],
                    )
                } else {
                    (Some(c2), Seq::<Action>::empty())
                }
            } else {
                (s, Seq::<Action>::empty())
            }
        },
        None => (s, Seq::<Action>::empty()),
    }
}

/// The peer a session is with, after applying one property sequence entry at
/// a time; helper for stating what a property broadcast does.
pub open spec fn spec_apply_props(p: Peer, props: Seq<Property>) -> Peer
    decreases props.len(),
{
    if props.len() == 0 {
        p
    } else {
        spec_apply_props(p.spec_with_property(props[0]), props.skip(1))
    }
}

/// Applying one more property on the right is applying it last.
pub proof fn lemma_apply_props_push(p: Peer, props: Seq<Property>, x: Property)
    ensures
        spec_apply_props(p, props.push(x)) == spec_apply_props(p, props).spec_with_property(x),
    decreases props.len(),
{
    let s = props.push(x);
    if props.len() == 0 {
        assert(s.skip(1) =~= Seq::<Property>::empty());
        assert(s[0] == x);
        assert(spec_apply_props(p, s) == spec_apply_props(
            p.spec_with_property(x),
            s.skip(1),
        ));
        assert(spec_apply_props(p.spec_with_property(x), s.skip(1)) == p.spec_with_property(x));
    } else {
        assert(s[0] == props[0]);
        assert(s.skip(1) =~= props.skip(1).push(x));
        lemma_apply_props_push(p.spec_with_property(props[0]), props.skip(1), x);
        assert(spec_apply_props(p, s) == spec_apply_props(
            p.spec_with_property(props[0]),
            props.skip(1).push(x),
        ));
        assert(spec_apply_props(p, props) == spec_apply_props(
            p.spec_with_property(props[0]),
            props.skip(1),
        ));
    }
}

/// What one dispatched envelope does: the exact post-state and actions of
/// [`Client::handle_envelope`], by envelope variant. `sender` is the peer
/// the envelope was received from, `source` the signed origin carried by the
/// transport (meaningful for property broadcasts), `sender_allowed` the
/// local policy verdict for the sender.
pub open spec fn envelope_step_holds(
    pre: Client,
    post: Client,
    actions: Seq<Action>,
    sender: u64,
    source: Option<u64>,
    data: PublishData,
    sender_allowed: bool,
) -> bool {
    &&& post.spec_local_key() == pre.spec_local_key()
    &&& match data {
        PublishData::PropertyChanged(props) => {
            &&& post.session() == pre.session()
            &&& actions == Seq::<Action>::empty()
            &&& post.registry().keys() == pre.registry().keys()
            &&& post.registry().change_log() == pre.registry().change_log()
            &&& match source {
                Some(sk) => {
                    if pre.registry().has(sk) {
                        post.registry().peers() == pre.registry().peers().update(
                            pre.registry().index_of(sk),
                            spec_apply_props(
                                pre.registry().peers()[pre.registry().index_of(sk)],
                                props@,
                            ),
                        )
                    } else {
                        post.registry().peers() == pre.registry().peers()
                    }
                },
                None => post.registry().peers() == pre.registry().peers(),
            }
        },
        PublishData::Alert(a) => {
            &&& post.session() == pre.session()
            &&& post.registry() == pre.registry()
            &&& actions == if pre.registry().has(sender) && sender_allowed {
                seq![Action::AlertReceived { peer: sender, alert: a }]
            } else {
                Seq::<Action>::empty()
            }
        },
        PublishData::CallRequest { destination } => {
            &&& post.registry() == pre.registry()
            &&& if destination == pre.spec_local_key() {
                (post.session(), actions) == step_call_request_received(
                    pre.session(),
                    sender,
                    pre.registry().has(sender),
                    sender_allowed,
                )
            } else {
                post.session() == pre.session() && actions == Seq::<Action>::empty()
            }
        },
        PublishData::CallRequestCancel { destination } => {
            &&& post.registry() == pre.registry()
            &&& if destination == pre.spec_local_key() {
                (post.session(), actions) == step_cancel_received(pre.session(), sender)
            } else {
                post.session() == pre.session() && actions == Seq::<Action>::empty()
            }
        },
        PublishData::CallRequestResponse { destination, response } => {
            &&& post.registry() == pre.registry()
            &&& if destination == pre.spec_local_key() {
                (post.session(), actions) == step_response_received(
                    pre.session(),
                    sender,
                    response,
                )
            } else {
                post.session() == pre.session() && actions == Seq::<Action>::empty()
            }
        },
    }
}

/// Whether a step kept the session it was given (same counterpart peer) or
/// ended it; in particular, it did not replace it with a session for another
/// peer.
pub open spec fn same_session_or_gone(pre: Option<Call>, post: Option<Call>) -> bool {
    match post {
        Some(c2) => pre is Some && c2.peer == pre.unwrap().peer,
        None => true,
    }
}

/// At most one call session exists at any time. The client holds the session
/// in a single optional slot, so this is structural; what remains to show is
/// that no step taken while a session exists creates a fresh one: a further
/// inbound request leaves the session exactly as it was (and is rejected,
/// see [`lemma_request_while_busy_rejected`]), and every other step either
/// keeps the session's counterpart peer or ends the call.
pub proof fn lemma_no_second_session(
    s: Option<Call>,
    sender: u64,
    known: bool,
    allowed: bool,
    response: CallRequestResponse,
    success: bool,
    now_ms: u64,
    from: u64,
)
    requires
        s is Some,
    ensures
        step_call_request_received(s, sender, known, allowed).0 == s,
        same_session_or_gone(s, step_incoming_accept(s).0),
        same_session_or_gone(s, step_incoming_decline(s).0),
        same_session_or_gone(s, step_outgoing_cancel(s).0),
        same_session_or_gone(s, step_ongoing_end(s).0),
        same_session_or_gone(s, step_cancel_received(s, sender).0),
        same_session_or_gone(s, step_response_received(s, sender, response).0),
        same_session_or_gone(s, step_stream_opened(s, success, now_ms).0),
        same_session_or_gone(s, step_inbound_stream(s, from).0),
        same_session_or_gone(s, step_input_closed(s).0),
        same_session_or_gone(s, step_output_closed(s).0),
{
}

/// A remote cancel that arrives strictly before the local accept or decline
/// of an incoming session resolves the session to ended-as-cancelled, with
/// no response published, and the local decision arriving afterwards has no
/// observable effect: no state change and no actions.
pub proof fn lemma_cancel_beats_local_decision(c: Call)
    requires
        c.wf(),
        c.state == CallState::Incoming,
        !c.opening,
    ensures
        ({
            let (s1, a1) = step_cancel_received(Some(c), c.peer);
            &&& s1 is None
            &&& a1 == seq![Action::CallEnded { reason: CallEndReason::Cancelled }]
            &&& step_incoming_accept(s1) == (s1, Seq::<Action>::empty())
            &&& step_incoming_decline(s1) == (s1, Seq::<Action>::empty())
        }),
{
}

/// A call request received while any session exists is answered immediately
/// — within the same dispatch, before any suspension point — with a
/// structured rejection naming the busy state, and the session is exactly
/// what it was; the registry is untouched by every call-signalling envelope
/// (see [`envelope_step_holds`]).
pub proof fn lemma_request_while_busy_rejected(c: Call, sender: u64, known: bool, allowed: bool)
    ensures
        ({
            let (s1, a1) = step_call_request_received(Some(c), sender, known, allowed);
            &&& s1 == Some(c)
            &&& a1 == seq![
                Action::Publish(
                    PublishData::CallRequestResponse {
                        destination: sender,
                        response: CallRequestResponse::Reject(
                            CallRequestRejectReason::AlreadyInCall,
                        ),
                    },
                ),
            ]
        }),
{
}

/// An outgoing call whose peer responds with an accept: exactly one audio
/// stream open is begun, towards the destination peer, and once it completes
/// the session is ongoing with that peer; the completion step requests no
/// further open.
pub proof fn lemma_outgoing_accept_connects(c: Call, now_ms: u64)
    requires
        c.wf(),
        c.state == CallState::Outgoing,
        !c.opening,
    ensures
        ({
            let (s1, a1) = step_response_received(Some(c), c.peer, CallRequestResponse::Accept);
            &&& a1 == seq![Action::OpenAudioStream { peer: c.peer }]
            &&& ({
                let (s2, a2) = step_stream_opened(s1, true, now_ms);
                &&& s2 is Some
                &&& s2.unwrap().state == CallState::Ongoing
                &&& s2.unwrap().peer == c.peer
                &&& s2.unwrap().ongoing_since_ms == Some(now_ms)
                &&& a2 == seq![Action::AttachOpenedStream, Action::StartDurationTimer]
            })
        }),
{
}

/// While an ongoing call's outbound stream is still open, an inbound
/// half-close leaves the session ongoing; only when the outbound direction
/// also reports closure does the session end — cancelling the duration tick
/// and reporting the end exactly once — and half-close signals arriving
/// after that do nothing.
pub proof fn lemma_end_needs_both_half_closes(c: Call)
    requires
        c.wf(),
        c.state == CallState::Ongoing,
        c.output_attached,
        !c.input_closed,
        !c.output_closed,
    ensures
        ({
            let (s1, a1) = step_input_closed(Some(c));
            &&& s1 is Some
            &&& s1.unwrap().state == CallState::Ongoing
            &&& a1 == Seq::<Action>::empty()
            &&& ({
                let (s2, a2) = step_output_closed(s1);
                &&& s2 is None
                &&& a2 == seq![
                    Action::StopDurationTimer,
                    Action::CallEnded { reason: CallEndReason::Other },
                ]
                &&& step_input_closed(s2) == (s2, Seq::<Action>::empty())
                &&& step_output_closed(s2) == (s2, Seq::<Action>::empty())
            })
        }),
{
}

/// The overlay client: the single owner of the peer registry and of the at
/// most one call session, mutated only through its dispatch functions.
pub struct Client {
    local_key: u64,
    peer_list: PeerList,
    active_call: Option<Call>,
}

impl Client {
    /// Our own node key.
    pub closed spec fn spec_local_key(self) -> u64 {
        self.local_key
    }

    /// The current call session, if any.
    pub closed spec fn session(self) -> Option<Call> {
        self.active_call
    }

    /// The peer registry.
    pub closed spec fn registry(self) -> PeerList {
        self.peer_list
    }

    /// Well-formedness: the registry invariant holds and any session is a
    /// live, consistent one.
    pub open spec fn wf(self) -> bool {
        &&& self.registry().wf()
        &&& match self.session() {
            Some(c) => c.wf(),
            None => true,
        }
    }

    /// A fresh client with the given local node key, an empty registry and
    /// no session.
    pub fn new(local_key: u64) -> (r: Client)
        ensures
            r.wf(),
            r.spec_local_key() == local_key,
            r.session() is None,
            r.registry().keys() == Seq::<u64>::empty(),
            r.registry().change_log().len() == 0,
    {
        Client { local_key, peer_list: PeerList::new(), active_call: None }
    }

    /// Our own node key.
    pub fn local_key(&self) -> (r: u64)
        ensures
            r == self.spec_local_key(),
    {
        self.local_key
    }

    /// Read access to the peer registry.
    pub fn peer_list(&self) -> (r: &PeerList)
        ensures
            *r == self.registry(),
    {
        &self.peer_list
    }

    /// The current call session, if any.
    pub fn active_call(&self) -> (r: Option<Call>)
        ensures
            r == self.session(),
    {
        self.active_call
    }

    /// Requests a call to the given peer. Succeeds exactly when no session
    /// exists and the destination is registered: the request is published
    /// and an outgoing session is created.
    pub fn call_request(&mut self, destination: u64) -> (r: Result<Vec<Action>, ClientError>)
        requires
            old(self).wf(),
        ensures
            final(self).wf(),
            final(self).spec_local_key() == old(self).spec_local_key(),
            final(self).registry() == old(self).registry(),
            old(self).session() is Some ==> r == Result::<Vec<Action>, ClientError>::Err(
                ClientError::AlreadyInCall,
            ) && final(self).session() == old(self).session(),
            old(self).session() is None && !old(self).registry().has(destination) ==> {
                &&& r == Result::<Vec<Action>, ClientError>::Err(ClientError::UnknownPeer)
                &&& final(self).session() is None
            },
            old(self).session() is None && old(self).registry().has(destination) ==> {
                &&& r is Ok
                &&& r.unwrap()@ == seq![
                    Action::Publish(PublishData::CallRequest { destination }),
                ]
                &&& final(self).session() == Some(
                    Call::spec_new(destination, CallState::Outgoing),
                )
            },
    {
        if self.active_call.is_some() {
            return Err(ClientError::AlreadyInCall);
        }
        if !self.peer_list.contains(destination) {
            return Err(ClientError::UnknownPeer);
        }
        let mut actions: Vec<Action> = Vec::new();
        actions.push(Action::Publish(PublishData::CallRequest { destination }));
        self.active_call = Some(Call::new(destination, CallState::Outgoing));
        proof {
            assert(actions@ =~= seq![Action::Publish(PublishData::CallRequest { destination })]);
        }
        Ok(actions)
    }

    /// Accepts the incoming call request: begins opening the audio stream.
    /// A stale invocation (no undecided incoming session) changes nothing.
    pub fn call_incoming_accept(&mut self) -> (actions: Vec<Action>)
        requires
            old(self).wf(),
        ensures
            final(self).wf(),
            final(self).spec_local_key() == old(self).spec_local_key(),
            final(self).registry() == old(self).registry(),
            (final(self).session(), actions@) == step_incoming_accept(old(self).session()),
    {
        let mut actions: Vec<Action> = Vec::new();
        match &self.active_call {
            Some(c) => {
                if c.state == CallState::Incoming && !c.opening {
                    let peer = c.peer;
                    self.active_call = Some(Call { opening: true, ..*c });
                    actions.push(Action::OpenAudioStream { peer });
                    proof {
                        assert(actions@ =~= seq![Action::OpenAudioStream { peer }]);
                    }
                }
            },
            None => {},
        }
        actions
    }

    /// Declines the incoming call request: publishes the rejection and ends
    /// the session. A stale invocation changes nothing.
    pub fn call_incoming_decline(&mut self) -> (actions: Vec<Action>)
        requires
            old(self).wf(),
        ensures
            final(self).wf(),
            final(self).spec_local_key() == old(self).spec_local_key(),
            final(self).registry() == old(self).registry(),
            (final(self).session(), actions@) == step_incoming_decline(old(self).session()),
    {
        let mut actions: Vec<Action> = Vec::new();
        match &self.active_call {
            Some(c) => {
                if c.state == CallState::Incoming && !c.opening {
                    let peer = c.peer;
                    self.active_call = None;
                    actions.push(
                        Action::Publish(
                            PublishData::CallRequestResponse {
                                destination: peer,
                                response: CallRequestResponse::Reject(
                                    CallRequestRejectReason::RejectedByUser,
                                ),
                            },
                        ),
                    );
                    actions.push(Action::CallEnded { reason: CallEndReason::PeerRejected });
                    proof {
                        assert(actions@ =~= step_incoming_decline(old(self).session()).1);
                    }
                }
            },
            None => {},
        }
        actions
    }

    /// Cancels the outgoing call request: publishes the cancel and ends the
    /// session. Refused when no session exists; a session in another state
    /// makes it a stale no-op.
    pub fn call_outgoing_cancel(&mut self) -> (r: Result<Vec<Action>, ClientError>)
        requires
            old(self).wf(),
        ensures
            final(self).wf(),
            final(self).spec_local_key() == old(self).spec_local_key(),
            final(self).registry() == old(self).registry(),
            old(self).session() is None ==> r == Result::<Vec<Action>, ClientError>::Err(
                ClientError::NoActiveCall,
            ) && final(self).session() is None,
            old(self).session() is Some ==> {
                &&& r is Ok
                &&& (final(self).session(), r.unwrap()@) == step_outgoing_cancel(
                    old(self).session(),
                )
            },
    {
        let mut actions: Vec<Action> = Vec::new();
        match &self.active_call {
            Some(c) => {
                if c.state == CallState::Outgoing {
                    let peer = c.peer;
                    self.active_call = None;
                    actions.push(
                        Action::Publish(PublishData::CallRequestCancel { destination: peer }),
                    );
                    actions.push(Action::CallEnded { reason: CallEndReason::Other });
                    proof {
                        assert(actions@ =~= step_outgoing_cancel(old(self).session()).1);
                    }
                }
                Ok(actions)
            },
            None => Err(ClientError::NoActiveCall),
        }
    }

    /// Hangs up the ongoing call: sends end-of-stream to each attached, open
    /// media direction. The session ends when the half-close signals come
    /// back. Refused when no session exists; a session in another state
    /// makes it a stale no-op.
    pub fn call_ongoing_end(&mut self) -> (r: Result<Vec<Action>, ClientError>)
        requires
            old(self).wf(),
        ensures
            final(self).wf(),
            final(self).spec_local_key() == old(self).spec_local_key(),
            final(self).registry() == old(self).registry(),
            old(self).session() is None ==> r == Result::<Vec<Action>, ClientError>::Err(
                ClientError::NoActiveCall,
            ) && final(self).session() is None,
            old(self).session() is Some ==> {
                &&& r is Ok
                &&& (final(self).session(), r.unwrap()@) == step_ongoing_end(old(self).session())
            },
    {
        let mut actions: Vec<Action> = Vec::new();
        match &self.active_call {
            Some(c) => {
                if c.state == CallState::Ongoing {
                    actions = c.start_end();
                }
                Ok(actions)
            },
            None => Err(ClientError::NoActiveCall),
        }
    }

    /// Queues an alert broadcast.
    pub fn publish_alert(&self, alert: AlertType) -> (actions: Vec<Action>)
        ensures
            actions@ == seq![Action::Publish(PublishData::Alert(alert))],
    {
        let mut actions: Vec<Action> = Vec::new();
        actions.push(Action::Publish(PublishData::Alert(alert)));
        proof {
            assert(actions@ =~= seq![Action::Publish(PublishData::Alert(alert))]);
        }
        actions
    }

    /// Queues a broadcast of the given local property set.
    pub fn publish_property_changed(&self, props: Vec<Property>) -> (actions: Vec<Action>)
        ensures
            actions@.len() == 1,
            actions@[0] == Action::Publish(PublishData::PropertyChanged(props)),
    {
        let mut actions: Vec<Action> = Vec::new();
        actions.push(Action::Publish(PublishData::PropertyChanged(props)));
        actions
    }

    /// Discovery reported a peer present: registers it when unknown (an
    /// already known peer keeps its entry and position) and has it added to
    /// the gossip mesh.
    pub fn handle_peer_discovered(&mut self, peer: u64) -> (actions: Vec<Action>)
        requires
            old(self).wf(),
        ensures
            final(self).wf(),
            final(self).spec_local_key() == old(self).spec_local_key(),
            final(self).session() == old(self).session(),
            actions@ == seq![Action::AddExplicitPeer { peer }],
            old(self).registry().has(peer) ==> {
                &&& final(self).registry().keys() == old(self).registry().keys()
                &&& final(self).registry().peers() == old(self).registry().peers()
                &&& final(self).registry().change_log() == old(self).registry().change_log()
            },
            !old(self).registry().has(peer) ==> {
                &&& final(self).registry().keys() == old(self).registry().keys().push(peer)
                &&& final(self).registry().peers().drop_last() == old(self).registry().peers()
                &&& final(self).registry().peers().last().is_blank(peer)
            },
    {
        if !self.peer_list.contains(peer) {
            self.peer_list.insert(Peer::new(peer));
        }
        let mut actions: Vec<Action> = Vec::new();
        actions.push(Action::AddExplicitPeer { peer });
        proof {
            assert(actions@ =~= seq![Action::AddExplicitPeer { peer }]);
        }
        actions
    }

    /// Discovery reported a peer expired: removes it from the registry and
    /// has it removed from the gossip mesh.
    pub fn handle_peer_expired(&mut self, peer: u64) -> (actions: Vec<Action>)
        requires
            old(self).wf(),
        ensures
            final(self).wf(),
            final(self).spec_local_key() == old(self).spec_local_key(),
            final(self).session() == old(self).session(),
            actions@ == seq![Action::RemoveExplicitPeer { peer }],
            old(self).registry().has(peer) ==> {
                &&& final(self).registry().keys() == old(self).registry().keys().remove(
                    old(self).registry().index_of(peer),
                )
                &&& final(self).registry().peers() == old(self).registry().peers().remove(
                    old(self).registry().index_of(peer),
                )
            },
            !old(self).registry().has(peer) ==> {
                &&& final(self).registry().keys() == old(self).registry().keys()
                &&& final(self).registry().peers() == old(self).registry().peers()
            },
    {
        self.peer_list.remove(peer);
        let mut actions: Vec<Action> = Vec::new();
        actions.push(Action::RemoveExplicitPeer { peer });
        proof {
            assert(actions@ =~= seq![Action::RemoveExplicitPeer { peer }]);
        }
        actions
    }

    /// The gossip substrate acknowledged our topic subscription: the local
    /// property set is published once, ahead of the periodic republish.
    pub fn handle_topic_subscribed(&self) -> (actions: Vec<Action>)
        ensures
            actions@ == seq![Action::PublishOwnProperties],
    {
        let mut actions: Vec<Action> = Vec::new();
        actions.push(Action::PublishOwnProperties);
        proof {
            assert(actions@ =~= seq![Action::PublishOwnProperties]);
        }
        actions
    }

    /// The pending audio stream open completed; see `step_stream_opened`.
    pub fn handle_stream_opened(&mut self, success: bool, now_ms: u64) -> (actions: Vec<Action>)
        requires
            old(self).wf(),
        ensures
            final(self).wf(),
            final(self).spec_local_key() == old(self).spec_local_key(),
            final(self).registry() == old(self).registry(),
            (final(self).session(), actions@) == step_stream_opened(
                old(self).session(),
                success,
                now_ms,
            ),
    {
        let mut actions: Vec<Action> = Vec::new();
        match &self.active_call {
            Some(c) => {
                if c.opening {
                    if success {
                        let was_incoming = c.state == CallState::Incoming;
                        let peer = c.peer;
                        let c2 = Call {
                            opening: false,
                            input_attached: true,
                            state: CallState::Ongoing,
                            ongoing_since_ms: Some(now_ms),
                            ..*c
                        };
                        self.active_call = Some(c2);
                        actions.push(Action::AttachOpenedStream);
                        if was_incoming {
                            actions.push(
                                Action::Publish(
                                    PublishData::CallRequestResponse {
                                        destination: peer,
                                        response: CallRequestResponse::Accept,
                                    },
                                ),
                            );
                        }
                        actions.push(Action::StartDurationTimer);
                        proof {
                            assert(actions@ =~= step_stream_opened(
                                old(self).session(),
                                success,
                                now_ms,
                            ).1);
                        }
                    } else {
                        self.active_call = None;
                        actions.push(Action::CallEnded { reason: CallEndReason::Other });
                        proof {
                            assert(actions@ =~= step_stream_opened(
                                old(self).session(),
                                success,
                                now_ms,
                            ).1);
                        }
                    }
                } else {
                    if success {
                        actions.push(Action::DiscardOpenedStream);
                        proof {
                            assert(actions@ =~= seq![Action::DiscardOpenedStream]);
                        }
                    }
                }
            },
            None => {
                if success {
                    actions.push(Action::DiscardOpenedStream);
                    proof {
                        assert(actions@ =~= seq![Action::DiscardOpenedStream]);
                    }
                }
            },
        }
        actions
    }

    /// A peer opened a stream towards us; see `step_inbound_stream`.
    pub fn handle_inbound_stream(&mut self, from: u64) -> (actions: Vec<Action>)
        requires
            old(self).wf(),
        ensures
            final(self).wf(),
            final(self).spec_local_key() == old(self).spec_local_key(),
            final(self).registry() == old(self).registry(),
            (final(self).session(), actions@) == step_inbound_stream(old(self).session(), from),
    {
        let mut actions: Vec<Action> = Vec::new();
        match &self.active_call {
            Some(c) => {
                if c.peer == from && !c.output_attached {
                    self.active_call = Some(Call { output_attached: true, ..*c });
                    actions.push(Action::AttachInboundStream);
                    proof {
                        assert(actions@ =~= seq![Action::AttachInboundStream]);
                    }
                } else {
                    actions.push(Action::DiscardInboundStream);
                    proof {
                        assert(actions@ =~= seq![Action::DiscardInboundStream]);
                    }
                }
            },
            None => {
                actions.push(Action::DiscardInboundStream);
                proof {
                    assert(actions@ =~= seq![Action::DiscardInboundStream]);
                }
            },
        }
        actions
    }

    /// The inbound media pipeline reported end-of-stream or error; see
    /// `step_input_closed`.
    pub fn handle_input_stream_closed(&mut self) -> (actions: Vec<Action>)
        requires
            old(self).wf(),
        ensures
            final(self).wf(),
            final(self).spec_local_key() == old(self).spec_local_key(),
            final(self).registry() == old(self).registry(),
            (final(self).session(), actions@) == step_input_closed(old(self).session()),
    {
        let mut actions: Vec<Action> = Vec::new();
        match &self.active_call {
            Some(c) => {
                if c.input_attached && !c.input_closed {
                    let c2 = Call { input_closed: true, ..*c };
                    if c2.state == CallState::Ongoing && (c2.output_closed
                        || !c2.output_attached) {
                        self.active_call = None;
                        actions.push(Action::StopDurationTimer);
                        actions.push(Action::CallEnded { reason: CallEndReason::Other });
                        proof {
                            assert(actions@ =~= step_input_closed(old(self).session()).1);
                        }
                    } else {
                        self.active_call = Some(c2);
                    }
                }
            },
            None => {},
        }
        actions
    }

    /// Dispatches one decoded gossip envelope received from `sender` whose
    /// signed origin is `source`; `sender_allowed` is the local policy
    /// verdict for the sender. Exactly [`envelope_step_holds`] happens: a
    /// property broadcast updates the named attributes of the origin peer in
    /// place, an alert from a known, allowed peer is surfaced, and the
    /// call-signalling variants addressed to us step the session. Envelopes
    /// addressed to another peer, from unknown peers where knowledge is
    /// required, or inconsistent with the session are dropped.
    pub fn handle_envelope(
        &mut self,
        sender: u64,
        source: Option<u64>,
        data: PublishData,
        sender_allowed: bool,
    ) -> (actions: Vec<Action>)
        requires
            old(self).wf(),
        ensures
            final(self).wf(),
            envelope_step_holds(
                *old(self),
                *final(self),
                actions@,
                sender,
                source,
                data,
                sender_allowed,
            ),
    {
        let mut actions: Vec<Action> = Vec::new();
        match data {
            PublishData::PropertyChanged(props) => {
                match source {
                    Some(sk) => {
                        if self.peer_list.contains(sk) {
                            let ghost pre_reg = self.peer_list;
                            let ghost idx = pre_reg.index_of(sk);
                            let ghost p0 = pre_reg.peers()[idx];
                            proof {
                                crate::index_map::lemma_key_index(pre_reg.entries(), sk);
                                pre_reg.lemma_lens();
                                assert(pre_reg.has(sk));
                                assert(crate::index_map::has_key(pre_reg.entries(), sk));
                                assert(idx < pre_reg.entries().len());
                                assert(pre_reg.peers().len() == pre_reg.entries().len());
                                assert(0 <= idx < pre_reg.peers().len());
                                assert(pre_reg.peers().update(
                                    idx,
                                    spec_apply_props(p0, props@.subrange(0, 0)),
                                ) =~= pre_reg.peers());
                            }
                            let mut i: usize = 0;
                            while i < props.len()
                                invariant
                                    i <= props.len(),
                                    self.peer_list.wf(),
                                    self.peer_list.entries() == pre_reg.entries(),
                                    self.peer_list.change_log() == pre_reg.change_log(),
                                    self.peer_list.has(sk),
                                    pre_reg.has(sk),
                                    idx == pre_reg.index_of(sk),
                                    0 <= idx < pre_reg.peers().len(),
                                    p0 == pre_reg.peers()[idx],
                                    self.peer_list.peers() == pre_reg.peers().update(
                                        idx,
                                        spec_apply_props(p0, props@.subrange(0, i as int)),
                                    ),
                                    self.local_key == old(self).local_key,
                                    self.active_call == old(self).active_call,
                                decreases props.len() - i,
                            {
                                let ghost cur = spec_apply_props(
                                    p0,
                                    props@.subrange(0, i as int),
                                );
                                self.peer_list.update_peer(sk, &props[i]);
                                proof {
                                    assert(props@.subrange(0, i as int).push(props@[i as int])
                                        =~= props@.subrange(0, i as int + 1));
                                    lemma_apply_props_push(
                                        p0,
                                        props@.subrange(0, i as int),
                                        props@[i as int],
                                    );
                                    assert(pre_reg.peers().update(idx, cur)[idx] == cur);
                                    assert(self.peer_list.peers() =~= pre_reg.peers().update(
                                        idx,
                                        spec_apply_props(p0, props@.subrange(0, i as int + 1)),
                                    ));
                                }
                                i = i + 1;
                            }
                            proof {
                                assert(props@.subrange(0, props@.len() as int) =~= props@);
                            }
                        }
                    },
                    None => {},
                }
                proof {
                    assert(actions@ =~= Seq::<Action>::empty());
                }
            },
            PublishData::Alert(a) => {
                if self.peer_list.contains(sender) && sender_allowed {
                    actions.push(Action::AlertReceived { peer: sender, alert: a });
                    proof {
                        assert(actions@ =~= seq![Action::AlertReceived { peer: sender, alert: a }]);
                    }
                }
            },
            PublishData::CallRequest { destination } => {
                if destination == self.local_key {
                    if self.active_call.is_some() {
                        actions.push(
                            Action::Publish(
                                PublishData::CallRequestResponse {
                                    destination: sender,
                                    response: CallRequestResponse::Reject(
                                        CallRequestRejectReason::AlreadyInCall,
                                    ),
                                },
                            ),
                        );
                        proof {
                            assert(actions@ =~= step_call_request_received(
                                old(self).session(),
                                sender,
                                old(self).registry().has(sender),
                                sender_allowed,
                            ).1);
                        }
                    } else if !self.peer_list.contains(sender) {
                        // unknown sender: dropped
                    } else if !sender_allowed {
                        actions.push(
                            Action::Publish(
                                PublishData::CallRequestResponse {
                                    destination: sender,
                                    response: CallRequestResponse::Reject(
                                        CallRequestRejectReason::MutedByUser,
                                    ),
                                },
                            ),
                        );
                        proof {
                            assert(actions@ =~= step_call_request_received(
                                old(self).session(),
                                sender,
                                old(self).registry().has(sender),
                                sender_allowed,
                            ).1);
                        }
                    } else {
                        self.active_call = Some(Call::new(sender, CallState::Incoming));
                        actions.push(Action::IncomingCall { peer: sender });
                        proof {
                            assert(actions@ =~= seq![Action::IncomingCall { peer: sender }]);
                        }
                    }
                }
            },
            PublishData::CallRequestCancel { destination } => {
                if destination == self.local_key {
                    match &self.active_call {
                        Some(c) => {
                            if c.state == CallState::Incoming && !c.opening && c.peer == sender {
                                self.active_call = None;
                                actions.push(
                                    Action::CallEnded { reason: CallEndReason::Cancelled },
                                );
                                proof {
                                    assert(actions@ =~= seq![
                                        Action::CallEnded { reason: CallEndReason::Cancelled },
                                    ]);
                                }
                            }
                        },
                        None => {},
                    }
                }
            },
            PublishData::CallRequestResponse { destination, response } => {
                if destination == self.local_key {
                    match &self.active_call {
                        Some(c) => {
                            if c.state == CallState::Outgoing && c.peer == sender {
                                match response {
                                    CallRequestResponse::Accept => {
                                        if !c.opening {
                                            let peer = c.peer;
                                            self.active_call = Some(Call { opening: true, ..*c });
                                            actions.push(Action::OpenAudioStream { peer });
                                            proof {
                                                assert(actions@ =~= seq![
                                                    Action::OpenAudioStream { peer },
                                                ]);
                                            }
                                        }
                                    },
                                    CallRequestResponse::Reject(r) => {
                                        self.active_call = None;
                                        actions.push(
                                            Action::CallEnded {
                                                reason: reason_of_reject(r),
                                            },
                                        );
                                        proof {
                                            assert(actions@ =~= seq![
                                                Action::CallEnded {
                                                    reason: spec_reason_of_reject(r),
                                                },
                                            ]);
                                        }
                                    },
                                    CallRequestResponse::Cancelled => {},
                                }
                            }
                        },
                        None => {},
                    }
                }
            },
        }
        actions
    }

    /// Decodes one raw gossip payload and dispatches it. A malformed payload
    /// — anything the wire codec rejects — is dropped: no state change, no
    /// actions. A well-formed payload is dispatched as by
    /// [`Client::handle_envelope`] on an envelope with the decoded content.
    pub fn handle_message(
        &mut self,
        sender: u64,
        source: Option<u64>,
        payload: &str,
        sender_allowed: bool,
    ) -> (actions: Vec<Action>)
        requires
            old(self).wf(),
        ensures
            final(self).wf(),
            crate::codec::spec_decode(payload@) is None ==> {
                &&& final(self).session() == old(self).session()
                &&& final(self).registry() == old(self).registry()
                &&& final(self).spec_local_key() == old(self).spec_local_key()
                &&& actions@ == Seq::<Action>::empty()
            },
            crate::codec::spec_decode(payload@) is Some ==> exists|data: PublishData|
                crate::codec::envelope_view(data) == crate::codec::spec_decode(payload@).unwrap()
                    && #[trigger] envelope_step_holds(
                    *old(self),
                    *final(self),
                    actions@,
                    sender,
                    source,
                    data,
                    sender_allowed,
                ),
    {
        match crate::codec::decode(payload) {
            Some(data) => {
                let ghost witness = data;
                let actions = self.handle_envelope(sender, source, data, sender_allowed);
                proof {
                    assert(crate::codec::envelope_view(witness) == crate::codec::spec_decode(
                        payload@,
                    ).unwrap());
                    assert(envelope_step_holds(
                        *old(self),
                        *self,
                        actions@,
                        sender,
                        source,
                        witness,
                        sender_allowed,
                    ));
                }
                actions
            },
            None => {
                let actions: Vec<Action> = Vec::new();
                proof {
                    assert(actions@ =~= Seq::<Action>::empty());
                }
                actions
            },
        }
    }

    /// The outbound media pipeline reported end-of-stream or error; see
    /// `step_output_closed`.
    pub fn handle_output_stream_closed(&mut self) -> (actions: Vec<Action>)
        requires
            old(self).wf(),
        ensures
            final(self).wf(),
            final(self).spec_local_key() == old(self).spec_local_key(),
            final(self).registry() == old(self).registry(),
            (final(self).session(), actions@) == step_output_closed(old(self).session()),
    {
        let mut actions: Vec<Action> = Vec::new();
        match &self.active_call {
            Some(c) => {
                if c.output_attached && !c.output_closed {
                    let c2 = Call { output_closed: true, ..*c };
                    if c2.state == CallState::Ongoing && (c2.input_closed || !c2.input_attached) {
                        self.active_call = None;
                        actions.push(Action::StopDurationTimer);
                        actions.push(Action::CallEnded { reason: CallEndReason::Other });
                        proof {
                            assert(actions@ =~= step_output_closed(old(self).session()).1);
                        }
                    } else {
                        self.active_call = Some(c2);
                    }
                }
            },
            None => {},
        }
        actions
    }
}

} // verus!
