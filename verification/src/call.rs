//! The call session: the per-call state machine. At most one session exists
//! at a time; it is held by the client and dropped once a call ends.
use vstd::prelude::*;

verus! {

/// Why a call ended.
#[derive(Debug, Clone, Copy, PartialEq, Eq, Structural)]
pub enum CallEndReason {
    /// The remote peer rejected because it is already in a call.
    PeerInAnotherCall,
    /// The remote peer declined the call.
    PeerRejected,
    /// The remote peer has muted us by local policy.
    PeerMuted,
    /// The remote peer cancelled its request before we decided.
    Cancelled,
    Other,
}

/// The session's state. `Init` is the pre-creation placeholder and is never
/// observable on a stored session; `Ended` is terminal and a session that
/// reaches it is dropped by the client in the same step.
#[derive(Debug, Clone, Copy, PartialEq, Eq, Structural)]
pub enum CallState {
    Init,
    /// A remote request addressed to us awaits the local accept/decline
    /// decision, raced against a remote cancel.
    Incoming,
    /// Our request is out; we await the remote response.
    Outgoing,
    /// Both sides accepted; media streams are being exchanged.
    Ongoing,
    Ended(CallEndReason),
}

/// One call session. Plain data: every transition is made by the client's
/// dispatch functions, which say exactly how the fields move.
#[derive(Debug, Clone, Copy, PartialEq, Eq, Structural)]
pub struct Call {
    /// Node key of the counterpart peer.
    pub peer: u64,
    pub state: CallState,
    /// An audio stream open was requested and its completion is pending.
    pub opening: bool,
    /// The stream we opened was handed to the inbound media pipeline.
    pub input_attached: bool,
    /// The stream the peer opened was handed to the outbound media pipeline.
    pub output_attached: bool,
    /// The inbound media pipeline reported end-of-stream or error.
    pub input_closed: bool,
    /// The outbound media pipeline reported end-of-stream or error.
    pub output_closed: bool,
    /// Instant the session became `Ongoing`, in milliseconds of the caller's
    /// clock; present exactly while the session is `Ongoing`.
    pub ongoing_since_ms: Option<u64>,
}

impl Call {
    /// Well-formedness of a stored session: the state is live, the start
    /// instant exists exactly while ongoing, a pending stream open only
    /// precedes the ongoing state, and closure implies attachment.
    pub open spec fn wf(self) -> bool {
        &&& (self.state == CallState::Incoming || self.state == CallState::Outgoing
            || self.state == CallState::Ongoing)
        &&& (self.ongoing_since_ms is Some <==> self.state == CallState::Ongoing)
        &&& (self.input_attached <==> self.state == CallState::Ongoing)
        &&& (self.opening ==> self.state != CallState::Ongoing)
        &&& (self.input_closed ==> self.input_attached)
        &&& (self.output_closed ==> self.output_attached)
    }

    /// A fresh session for the given peer in the given initial state.
    pub open spec fn spec_new(peer: u64, state: CallState) -> Call {
        Call {
            peer,
            state,
            opening: false,
            input_attached: false,
            output_attached: false,
            input_closed: false,
            output_closed: false,
            ongoing_since_ms: None,
        }
    }

    /// A fresh session for the given peer in the given initial state.
    pub fn new(peer: u64, state: CallState) -> (r: Call)
        ensures
            r == Call::spec_new(peer, state),
    {
        Call {
            peer,
            state,
            opening: false,
            input_attached: false,
            output_attached: false,
            input_closed: false,
            output_closed: false,
            ongoing_since_ms: None,
        }
    }

    /// The teardown requests hangup sends: end-of-stream to each media
    /// direction that is attached and has not yet reported closure.
    pub open spec fn spec_teardown_actions(self) -> Seq<crate::client::Action> {
        (if self.input_attached && !self.input_closed {
            seq![crate::client::Action::SendInputEos]
        } else {
            Seq::<crate::client::Action>::empty()
        }) + (if self.output_attached && !self.output_closed {
            seq![crate::client::Action::SendOutputEos]
        } else {
            Seq::<crate::client::Action>::empty()
        })
    }

    /// Begins tearing the call down: end-of-stream goes to each attached,
    /// still-open media direction. The session itself does not move; it ends
    /// when the half-close signals come back in.
    pub fn start_end(&self) -> (actions: Vec<crate::client::Action>)
        ensures
            actions@ == self.spec_teardown_actions(),
    {
        let mut actions: Vec<crate::client::Action> = Vec::new();
        if self.input_attached && !self.input_closed {
            actions.push(crate::client::Action::SendInputEos);
        }
        if self.output_attached && !self.output_closed {
            actions.push(crate::client::Action::SendOutputEos);
        }
        proof {
            assert(actions@ =~= self.spec_teardown_actions());
        }
        actions
    }

    /// Elapsed seconds since the session became ongoing, given the current
    /// instant of the same clock; zero while not ongoing.
    pub fn duration_secs(&self, now_ms: u64) -> (r: u64)
        ensures
            r == match self.ongoing_since_ms {
                Some(start) => if start <= now_ms {
                    (now_ms - start) / 1000
                } else {
                    0int
                },
                None => 0int,
            },
    {
        match self.ongoing_since_ms {
            Some(start) => if start <= now_ms {
                (now_ms - start) / 1000
            } else {
                0
            },
            None => 0,
        }
    }
}

} // verus!
