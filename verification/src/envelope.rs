//! Wire-level data model: the tagged envelope broadcast on the shared gossip
//! topic and the payload types it carries.
//!
//! A peer on the overlay is identified by an opaque 64-bit node key; the
//! surrounding program maps transport-level peer identifiers to these keys.
//! Coordinates are carried as microdegrees and speed as millimetres per
//! second, so every field of an envelope is an exact integer value.
use vstd::prelude::*;

verus! {

/// Kind of alert a peer may broadcast.
#[derive(Debug, Clone, Copy, PartialEq, Eq, Structural)]
pub enum AlertType {
    Sos,
    Hazard,
    Yielding,
}

impl AlertType {
    /// Number of LED blinks used to signal an alert of this kind.
    pub fn blink_count(self) -> (r: u32)
        ensures
            r == match self {
                AlertType::Sos => 10u32,
                AlertType::Hazard => 5u32,
                AlertType::Yielding => 3u32,
            },
    {
        match self {
            AlertType::Sos => 10,
            AlertType::Hazard => 5,
            AlertType::Yielding => 3,
        }
    }
}

/// Reported quality of a peer's wireless signal.
#[derive(Debug, Clone, Copy, PartialEq, Eq, Structural)]
pub enum SignalQuality {
    /// No signal at all (encoded on the wire as `"None"`).
    NoSignal,
    Weak,
    /// A usable signal (encoded on the wire as `"Ok"`).
    Okay,
    Good,
    Excellent,
}

impl SignalQuality {
    /// The symbolic icon name shown for this signal quality.
    pub fn icon_name(&self) -> (r: &'static str)
        ensures
            r@ == match *self {
                SignalQuality::Excellent => "network-cellular-signal-excellent-symbolic"@,
                SignalQuality::Good => "network-cellular-signal-good-symbolic"@,
                SignalQuality::Okay => "network-cellular-signal-ok-symbolic"@,
                SignalQuality::Weak => "network-cellular-signal-weak-symbolic"@,
                SignalQuality::NoSignal => "network-cellular-signal-none-symbolic"@,
            },
    {
        match *self {
            SignalQuality::Excellent => "network-cellular-signal-excellent-symbolic",
            SignalQuality::Good => "network-cellular-signal-good-symbolic",
            SignalQuality::Okay => "network-cellular-signal-ok-symbolic",
            SignalQuality::Weak => "network-cellular-signal-weak-symbolic",
            SignalQuality::NoSignal => "network-cellular-signal-none-symbolic",
        }
    }
}

/// A geographic position in microdegrees (degrees times one million).
#[derive(Debug, Clone, Copy, PartialEq, Eq, Structural)]
pub struct Location {
    pub latitude: i64,
    pub longitude: i64,
}

/// A single mutable peer attribute carried by a property broadcast.
#[derive(Debug, Clone, PartialEq, Eq)]
pub enum Property {
    Name(String),
    Location(Option<Location>),
    /// Speed over ground, in millimetres per second.
    Speed(u64),
    SignalQuality(SignalQuality),
    IconName(String),
}

/// Why a call request was turned down.
#[derive(Debug, Clone, Copy, PartialEq, Eq, Structural)]
pub enum CallRequestRejectReason {
    AlreadyInCall,
    RejectedByUser,
    MutedByUser,
    Other,
}

/// Outcome of a call request, sent back to the requesting peer.
#[derive(Debug, Clone, Copy, PartialEq, Eq, Structural)]
pub enum CallRequestResponse {
    Accept,
    Reject(CallRequestRejectReason),
    Cancelled,
}

/// The tagged union broadcast over the gossip channel.
///
/// `destination` is always the target peer's node key, so peers can cheaply
/// ignore envelopes not addressed to them while still broadcasting on the
/// shared topic.
#[derive(Debug, Clone, PartialEq, Eq)]
pub enum PublishData {
    PropertyChanged(Vec<Property>),
    Alert(AlertType),
    CallRequest { destination: u64 },
    CallRequestCancel { destination: u64 },
    CallRequestResponse { destination: u64, response: CallRequestResponse },
}

} // verus!
