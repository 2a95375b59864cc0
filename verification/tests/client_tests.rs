use delta::call::{CallEndReason, CallState};
use delta::client::{Action, Client, ClientError};
use delta::codec::encode;
use delta::envelope::{
    AlertType, CallRequestRejectReason, CallRequestResponse, Property, PublishData,
};

const LOCAL: u64 = 100;
const PEER_A: u64 = 1;
const PEER_B: u64 = 2;

fn client_with_peers() -> Client {
    let mut c = Client::new(LOCAL);
    c.handle_peer_discovered(PEER_A);
    c.handle_peer_discovered(PEER_B);
    c
}

fn reject(destination: u64, reason: CallRequestRejectReason) -> Action {
    Action::Publish(PublishData::CallRequestResponse {
        destination,
        response: CallRequestResponse::Reject(reason),
    })
}

#[test]
fn call_request_creates_outgoing_session() {
    let mut c = client_with_peers();
    let actions = c.call_request(PEER_A).unwrap();
    assert_eq!(actions, vec![Action::Publish(PublishData::CallRequest { destination: PEER_A })]);
    let call = c.active_call().unwrap();
    assert_eq!(call.peer, PEER_A);
    assert_eq!(call.state, CallState::Outgoing);
}

#[test]
fn call_request_refused_while_in_call() {
    let mut c = client_with_peers();
    c.call_request(PEER_A).unwrap();
    assert_eq!(c.call_request(PEER_B), Err(ClientError::AlreadyInCall));
    assert_eq!(c.active_call().unwrap().peer, PEER_A);
}

#[test]
fn call_request_refused_for_unknown_peer() {
    let mut c = client_with_peers();
    assert_eq!(c.call_request(999), Err(ClientError::UnknownPeer));
    assert!(c.active_call().is_none());
}

#[test]
fn cancel_and_end_require_a_session() {
    let mut c = client_with_peers();
    assert_eq!(c.call_outgoing_cancel(), Err(ClientError::NoActiveCall));
    assert_eq!(c.call_ongoing_end(), Err(ClientError::NoActiveCall));
}

#[test]
fn request_while_busy_is_rejected_immediately() {
    // A request received while any session exists yields an immediate
    // busy rejection and leaves session and registry untouched.
    let mut c = client_with_peers();
    c.call_request(PEER_A).unwrap();
    let actions = c.handle_envelope(
        PEER_B,
        Some(PEER_B),
        PublishData::CallRequest { destination: LOCAL },
        true,
    );
    assert_eq!(actions, vec![reject(PEER_B, CallRequestRejectReason::AlreadyInCall)]);
    let call = c.active_call().unwrap();
    assert_eq!(call.peer, PEER_A);
    assert_eq!(call.state, CallState::Outgoing);
    assert_eq!(c.peer_list().len(), 2);
}

#[test]
fn incoming_request_creates_session() {
    let mut c = client_with_peers();
    let actions = c.handle_envelope(
        PEER_A,
        Some(PEER_A),
        PublishData::CallRequest { destination: LOCAL },
        true,
    );
    assert_eq!(actions, vec![Action::IncomingCall { peer: PEER_A }]);
    let call = c.active_call().unwrap();
    assert_eq!(call.peer, PEER_A);
    assert_eq!(call.state, CallState::Incoming);
}

#[test]
fn request_addressed_to_someone_else_is_ignored() {
    let mut c = client_with_peers();
    let actions = c.handle_envelope(
        PEER_A,
        Some(PEER_A),
        PublishData::CallRequest { destination: 555 },
        true,
    );
    assert!(actions.is_empty());
    assert!(c.active_call().is_none());
}

#[test]
fn muted_peer_request_gets_structured_rejection_and_no_session() {
    // A request from a peer muted by local policy: no session, nothing
    // surfaced to the observer layer, but a structured rejection goes back.
    let mut c = client_with_peers();
    let actions = c.handle_envelope(
        PEER_B,
        Some(PEER_B),
        PublishData::CallRequest { destination: LOCAL },
        false,
    );
    assert_eq!(actions, vec![reject(PEER_B, CallRequestRejectReason::MutedByUser)]);
    assert!(c.active_call().is_none());
    assert!(!actions.iter().any(|a| matches!(a, Action::IncomingCall { .. })));
    assert!(!actions.iter().any(|a| matches!(a, Action::AlertReceived { .. })));
}

#[test]
fn remote_cancel_before_local_decision_wins() {
    // Cancel strictly before the local accept/decline ends the session as
    // cancelled; the local decision afterwards has no observable effect.
    let mut c = client_with_peers();
    c.handle_envelope(PEER_A, Some(PEER_A), PublishData::CallRequest { destination: LOCAL }, true);
    let actions = c.handle_envelope(
        PEER_A,
        Some(PEER_A),
        PublishData::CallRequestCancel { destination: LOCAL },
        true,
    );
    assert_eq!(actions, vec![Action::CallEnded { reason: CallEndReason::Cancelled }]);
    assert!(c.active_call().is_none());
    // The stale local decisions are no-ops.
    assert!(c.call_incoming_accept().is_empty());
    assert!(c.call_incoming_decline().is_empty());
    assert!(c.active_call().is_none());
}

#[test]
fn accept_then_stream_open_connects_incoming_call() {
    let mut c = client_with_peers();
    c.handle_envelope(PEER_A, Some(PEER_A), PublishData::CallRequest { destination: LOCAL }, true);
    let actions = c.call_incoming_accept();
    assert_eq!(actions, vec![Action::OpenAudioStream { peer: PEER_A }]);
    // Once accept is applied, a remote cancel is stale and ignored.
    let stale = c.handle_envelope(
        PEER_A,
        Some(PEER_A),
        PublishData::CallRequestCancel { destination: LOCAL },
        true,
    );
    assert!(stale.is_empty());
    let actions = c.handle_stream_opened(true, 5_000);
    assert_eq!(
        actions,
        vec![
            Action::AttachOpenedStream,
            Action::Publish(PublishData::CallRequestResponse {
                destination: PEER_A,
                response: CallRequestResponse::Accept,
            }),
            Action::StartDurationTimer,
        ]
    );
    let call = c.active_call().unwrap();
    assert_eq!(call.state, CallState::Ongoing);
    assert_eq!(call.duration_secs(66_500), 61);
}

#[test]
fn decline_publishes_rejection_and_ends_session() {
    let mut c = client_with_peers();
    c.handle_envelope(PEER_A, Some(PEER_A), PublishData::CallRequest { destination: LOCAL }, true);
    let actions = c.call_incoming_decline();
    assert_eq!(
        actions,
        vec![
            reject(PEER_A, CallRequestRejectReason::RejectedByUser),
            Action::CallEnded { reason: CallEndReason::PeerRejected },
        ]
    );
    assert!(c.active_call().is_none());
}

#[test]
fn outgoing_accept_opens_stream_exactly_once() {
    // Outgoing call, remote accepts: the session transitions to ongoing and
    // the audio stream open happens exactly once, towards the destination.
    let mut c = client_with_peers();
    c.call_request(PEER_A).unwrap();
    let actions = c.handle_envelope(
        PEER_A,
        Some(PEER_A),
        PublishData::CallRequestResponse {
            destination: LOCAL,
            response: CallRequestResponse::Accept,
        },
        true,
    );
    assert_eq!(actions, vec![Action::OpenAudioStream { peer: PEER_A }]);
    // A duplicate accept does not open a second stream.
    let dup = c.handle_envelope(
        PEER_A,
        Some(PEER_A),
        PublishData::CallRequestResponse {
            destination: LOCAL,
            response: CallRequestResponse::Accept,
        },
        true,
    );
    assert!(dup.is_empty());
    let actions = c.handle_stream_opened(true, 1_000);
    assert_eq!(actions, vec![Action::AttachOpenedStream, Action::StartDurationTimer]);
    let opens = actions
        .iter()
        .filter(|a| matches!(a, Action::OpenAudioStream { .. }))
        .count();
    assert_eq!(opens, 0);
    assert_eq!(c.active_call().unwrap().state, CallState::Ongoing);
}

#[test]
fn remote_reject_reasons_map_to_end_reasons() {
    let cases = [
        (CallRequestRejectReason::AlreadyInCall, CallEndReason::PeerInAnotherCall),
        (CallRequestRejectReason::RejectedByUser, CallEndReason::PeerRejected),
        (CallRequestRejectReason::MutedByUser, CallEndReason::PeerMuted),
        (CallRequestRejectReason::Other, CallEndReason::Other),
    ];
    for (reject_reason, end_reason) in cases {
        let mut c = client_with_peers();
        c.call_request(PEER_A).unwrap();
        let actions = c.handle_envelope(
            PEER_A,
            Some(PEER_A),
            PublishData::CallRequestResponse {
                destination: LOCAL,
                response: CallRequestResponse::Reject(reject_reason),
            },
            true,
        );
        assert_eq!(actions, vec![Action::CallEnded { reason: end_reason }]);
        assert!(c.active_call().is_none());
    }
}

#[test]
fn response_without_outgoing_session_is_dropped() {
    let mut c = client_with_peers();
    let actions = c.handle_envelope(
        PEER_A,
        Some(PEER_A),
        PublishData::CallRequestResponse {
            destination: LOCAL,
            response: CallRequestResponse::Accept,
        },
        true,
    );
    assert!(actions.is_empty());
    assert!(c.active_call().is_none());
}

#[test]
fn stream_open_failure_ends_the_call() {
    let mut c = client_with_peers();
    c.call_request(PEER_A).unwrap();
    c.handle_envelope(
        PEER_A,
        Some(PEER_A),
        PublishData::CallRequestResponse {
            destination: LOCAL,
            response: CallRequestResponse::Accept,
        },
        true,
    );
    let actions = c.handle_stream_opened(false, 0);
    assert_eq!(actions, vec![Action::CallEnded { reason: CallEndReason::Other }]);
    assert!(c.active_call().is_none());
}

#[test]
fn stale_stream_open_is_discarded() {
    let mut c = client_with_peers();
    let actions = c.handle_stream_opened(true, 0);
    assert_eq!(actions, vec![Action::DiscardOpenedStream]);
    assert!(c.handle_stream_opened(false, 0).is_empty());
}

fn ongoing_call_with_both_streams() -> Client {
    let mut c = client_with_peers();
    c.call_request(PEER_A).unwrap();
    c.handle_envelope(
        PEER_A,
        Some(PEER_A),
        PublishData::CallRequestResponse {
            destination: LOCAL,
            response: CallRequestResponse::Accept,
        },
        true,
    );
    c.handle_stream_opened(true, 0);
    let attach = c.handle_inbound_stream(PEER_A);
    assert_eq!(attach, vec![Action::AttachInboundStream]);
    c
}

#[test]
fn ongoing_call_ends_only_after_both_half_closes() {
    // Inbound end-of-stream with the outbound still open: session stays
    // ongoing; when the outbound closes too it ends exactly once.
    let mut c = ongoing_call_with_both_streams();
    let first = c.handle_input_stream_closed();
    assert!(first.is_empty());
    assert_eq!(c.active_call().unwrap().state, CallState::Ongoing);
    let second = c.handle_output_stream_closed();
    assert_eq!(
        second,
        vec![
            Action::StopDurationTimer,
            Action::CallEnded { reason: CallEndReason::Other },
        ]
    );
    assert!(c.active_call().is_none());
    // Further half-close signals are stale no-ops.
    assert!(c.handle_input_stream_closed().is_empty());
    assert!(c.handle_output_stream_closed().is_empty());
}

#[test]
fn hangup_sends_end_of_stream_to_open_directions() {
    let mut c = ongoing_call_with_both_streams();
    let actions = c.call_ongoing_end().unwrap();
    assert_eq!(actions, vec![Action::SendInputEos, Action::SendOutputEos]);
    // State is unchanged until the half-close signals come back.
    assert_eq!(c.active_call().unwrap().state, CallState::Ongoing);
    c.handle_input_stream_closed();
    let done = c.handle_output_stream_closed();
    assert_eq!(
        done,
        vec![
            Action::StopDurationTimer,
            Action::CallEnded { reason: CallEndReason::Other },
        ]
    );
}

#[test]
fn unexpected_inbound_stream_is_dropped() {
    let mut c = client_with_peers();
    assert_eq!(c.handle_inbound_stream(PEER_A), vec![Action::DiscardInboundStream]);
    c.call_request(PEER_A).unwrap();
    assert_eq!(c.handle_inbound_stream(PEER_B), vec![Action::DiscardInboundStream]);
    assert_eq!(c.handle_inbound_stream(PEER_A), vec![Action::AttachInboundStream]);
    // A second stream from the same peer is unexpected.
    assert_eq!(c.handle_inbound_stream(PEER_A), vec![Action::DiscardInboundStream]);
}

#[test]
fn alert_surfaces_only_for_known_allowed_peers() {
    let mut c = client_with_peers();
    let shown = c.handle_envelope(PEER_A, Some(PEER_A), PublishData::Alert(AlertType::Sos), true);
    assert_eq!(shown, vec![Action::AlertReceived { peer: PEER_A, alert: AlertType::Sos }]);
    let muted = c.handle_envelope(PEER_A, Some(PEER_A), PublishData::Alert(AlertType::Sos), false);
    assert!(muted.is_empty());
    let unknown = c.handle_envelope(999, Some(999), PublishData::Alert(AlertType::Sos), true);
    assert!(unknown.is_empty());
}

#[test]
fn property_broadcast_updates_origin_peer() {
    let mut c = client_with_peers();
    let env = PublishData::PropertyChanged(vec![
        Property::Name("Rider".to_string()),
        Property::Speed(4_200),
        Property::IconName("bike".to_string()),
    ]);
    let actions = c.handle_envelope(PEER_A, Some(PEER_A), env, true);
    assert!(actions.is_empty());
    let p = c.peer_list().get(PEER_A).unwrap();
    assert_eq!(p.name, "Rider");
    assert_eq!(p.speed, 4_200);
    assert_eq!(p.icon_name, "bike");
    // Without a signed origin the broadcast is dropped.
    let env = PublishData::PropertyChanged(vec![Property::Speed(1)]);
    c.handle_envelope(PEER_A, None, env, true);
    assert_eq!(c.peer_list().get(PEER_A).unwrap().speed, 4_200);
}

#[test]
fn handle_message_decodes_and_dispatches() {
    let mut c = client_with_peers();
    let wire = encode(&PublishData::CallRequest { destination: LOCAL });
    let actions = c.handle_message(PEER_A, Some(PEER_A), wire.as_str(), true);
    assert_eq!(actions, vec![Action::IncomingCall { peer: PEER_A }]);
    assert_eq!(c.active_call().unwrap().state, CallState::Incoming);
}

#[test]
fn handle_message_drops_malformed_payloads() {
    let mut c = client_with_peers();
    let actions = c.handle_message(PEER_A, Some(PEER_A), "{\"Alert\":\"Sos\"trailing", true);
    assert!(actions.is_empty());
    assert!(c.active_call().is_none());
    assert_eq!(c.peer_list().len(), 2);
}

#[test]
fn discovery_registers_and_expires_peers() {
    let mut c = Client::new(LOCAL);
    let actions = c.handle_peer_discovered(PEER_A);
    assert_eq!(actions, vec![Action::AddExplicitPeer { peer: PEER_A }]);
    assert_eq!(c.peer_list().len(), 1);
    // A re-discovered known peer keeps its entry.
    c.handle_envelope(
        PEER_A,
        Some(PEER_A),
        PublishData::PropertyChanged(vec![Property::Name("kept".to_string())]),
        true,
    );
    c.handle_peer_discovered(PEER_A);
    assert_eq!(c.peer_list().len(), 1);
    assert_eq!(c.peer_list().get(PEER_A).unwrap().name, "kept");
    let actions = c.handle_peer_expired(PEER_A);
    assert_eq!(actions, vec![Action::RemoveExplicitPeer { peer: PEER_A }]);
    assert_eq!(c.peer_list().len(), 0);
}

#[test]
fn local_publishes_and_subscription() {
    let c = Client::new(LOCAL);
    assert_eq!(
        c.publish_alert(AlertType::Yielding),
        vec![Action::Publish(PublishData::Alert(AlertType::Yielding))]
    );
    assert_eq!(c.handle_topic_subscribed(), vec![Action::PublishOwnProperties]);
    let props = vec![Property::Speed(9)];
    assert_eq!(
        c.publish_property_changed(props.clone()),
        vec![Action::Publish(PublishData::PropertyChanged(props))]
    );
}

#[test]
fn outgoing_cancel_publishes_and_ends() {
    let mut c = client_with_peers();
    c.call_request(PEER_A).unwrap();
    let actions = c.call_outgoing_cancel().unwrap();
    assert_eq!(
        actions,
        vec![
            Action::Publish(PublishData::CallRequestCancel { destination: PEER_A }),
            Action::CallEnded { reason: CallEndReason::Other },
        ]
    );
    assert!(c.active_call().is_none());
}

#[test]
fn duration_is_zero_before_ongoing_and_counts_after() {
    let mut c = client_with_peers();
    c.call_request(PEER_A).unwrap();
    assert_eq!(c.active_call().unwrap().duration_secs(10_000), 0);
    c.handle_envelope(
        PEER_A,
        Some(PEER_A),
        PublishData::CallRequestResponse {
            destination: LOCAL,
            response: CallRequestResponse::Accept,
        },
        true,
    );
    c.handle_stream_opened(true, 1_000);
    let call = c.active_call().unwrap();
    assert_eq!(call.duration_secs(1_000), 0);
    assert_eq!(call.duration_secs(1_999), 0);
    assert_eq!(call.duration_secs(61_500), 60);
    assert_eq!(call.duration_secs(500), 0);
}

#[test]
fn alert_blink_counts() {
    assert_eq!(AlertType::Sos.blink_count(), 10);
    assert_eq!(AlertType::Hazard.blink_count(), 5);
    assert_eq!(AlertType::Yielding.blink_count(), 3);
}
