use delta::codec::{decode, encode};
use delta::envelope::{
    AlertType, CallRequestRejectReason, CallRequestResponse, Location, Property, PublishData,
    SignalQuality,
};

fn round_trips(e: PublishData) {
    let wire = encode(&e);
    assert_eq!(decode(wire.as_str()), Some(e));
}

#[test]
fn round_trip_call_request() {
    round_trips(PublishData::CallRequest { destination: 42 });
    round_trips(PublishData::CallRequest { destination: 0 });
    round_trips(PublishData::CallRequest { destination: u64::MAX });
}

#[test]
fn round_trip_call_request_cancel() {
    round_trips(PublishData::CallRequestCancel { destination: 7 });
}

#[test]
fn round_trip_call_request_response() {
    round_trips(PublishData::CallRequestResponse {
        destination: 3,
        response: CallRequestResponse::Accept,
    });
    round_trips(PublishData::CallRequestResponse {
        destination: 3,
        response: CallRequestResponse::Cancelled,
    });
    for reason in [
        CallRequestRejectReason::AlreadyInCall,
        CallRequestRejectReason::RejectedByUser,
        CallRequestRejectReason::MutedByUser,
        CallRequestRejectReason::Other,
    ] {
        round_trips(PublishData::CallRequestResponse {
            destination: 11,
            response: CallRequestResponse::Reject(reason),
        });
    }
}

#[test]
fn round_trip_alert() {
    round_trips(PublishData::Alert(AlertType::Sos));
    round_trips(PublishData::Alert(AlertType::Hazard));
    round_trips(PublishData::Alert(AlertType::Yielding));
}

#[test]
fn round_trip_property_changed_empty() {
    round_trips(PublishData::PropertyChanged(vec![]));
}

#[test]
fn round_trip_property_changed_full() {
    round_trips(PublishData::PropertyChanged(vec![
        Property::Name("Rider One".to_string()),
        Property::Location(Some(Location { latitude: 14_676_000, longitude: 120_540_123 })),
        Property::Speed(12_500),
        Property::SignalQuality(SignalQuality::Good),
        Property::IconName("motorbike".to_string()),
    ]));
}

#[test]
fn round_trip_negative_and_extreme_coordinates() {
    round_trips(PublishData::PropertyChanged(vec![Property::Location(Some(Location {
        latitude: -89_999_999,
        longitude: -180_000_000,
    }))]));
    round_trips(PublishData::PropertyChanged(vec![Property::Location(Some(Location {
        latitude: i64::MIN,
        longitude: i64::MAX,
    }))]));
    round_trips(PublishData::PropertyChanged(vec![Property::Location(None)]));
}

#[test]
fn round_trip_name_with_escapes() {
    round_trips(PublishData::PropertyChanged(vec![Property::Name(
        "a\"quoted\" back\\slash".to_string(),
    )]));
    round_trips(PublishData::PropertyChanged(vec![Property::Name(String::new())]));
    round_trips(PublishData::PropertyChanged(vec![Property::Name("çéλ†".to_string())]));
}

#[test]
fn round_trip_all_signal_qualities() {
    for q in [
        SignalQuality::NoSignal,
        SignalQuality::Weak,
        SignalQuality::Okay,
        SignalQuality::Good,
        SignalQuality::Excellent,
    ] {
        round_trips(PublishData::PropertyChanged(vec![Property::SignalQuality(q)]));
    }
}

#[test]
fn exact_wire_forms() {
    assert_eq!(
        encode(&PublishData::CallRequest { destination: 7 }),
        "{\"CallRequest\":{\"destination\":7}}"
    );
    assert_eq!(encode(&PublishData::Alert(AlertType::Sos)), "{\"Alert\":\"Sos\"}");
    assert_eq!(
        encode(&PublishData::CallRequestResponse {
            destination: 19,
            response: CallRequestResponse::Reject(CallRequestRejectReason::MutedByUser),
        }),
        "{\"CallRequestResponse\":{\"destination\":19,\"response\":{\"Reject\":\"MutedByUser\"}}}"
    );
    assert_eq!(
        encode(&PublishData::PropertyChanged(vec![
            Property::Name("a\"b\\c".to_string()),
            Property::Speed(250),
        ])),
        "{\"PropertyChanged\":[{\"Name\":\"a\\\"b\\\\c\"},{\"Speed\":250}]}"
    );
    assert_eq!(
        encode(&PublishData::PropertyChanged(vec![Property::Location(Some(Location {
            latitude: -5,
            longitude: 120,
        }))])),
        "{\"PropertyChanged\":[{\"Location\":{\"latitude\":-5,\"longitude\":120}}]}"
    );
    assert_eq!(encode(&PublishData::PropertyChanged(vec![])), "{\"PropertyChanged\":[]}");
}

#[test]
fn decode_exact_wire_forms() {
    assert_eq!(
        decode("{\"CallRequestCancel\":{\"destination\":123}}"),
        Some(PublishData::CallRequestCancel { destination: 123 })
    );
    assert_eq!(decode("{\"Alert\":\"Hazard\"}"), Some(PublishData::Alert(AlertType::Hazard)));
}

#[test]
fn decode_rejects_malformed() {
    assert_eq!(decode(""), None);
    assert_eq!(decode("{}"), None);
    assert_eq!(decode("{\"Alert\":\"Sos\""), None);
    assert_eq!(decode("{\"Alert\":\"Panic\"}"), None);
    assert_eq!(decode("{\"CallRequest\":{\"destination\":}}"), None);
    assert_eq!(decode("{\"CallRequest\":{\"destination\":-5}}"), None);
    assert_eq!(decode("{\"CallRequest\":{\"destination\":99999999999999999999999}}"), None);
    assert_eq!(decode("{\"CallRequest\":{\"destination\":7}} "), None);
    assert_eq!(decode("{\"PropertyChanged\":[{\"Speed\":1}"), None);
    assert_eq!(decode("not json at all"), None);
}
