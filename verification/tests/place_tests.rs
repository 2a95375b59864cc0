use delta::envelope::{Location, SignalQuality};
use delta::place_finder::{Place, PlaceType};

#[test]
fn all_lists_every_place_type_once() {
    let all = PlaceType::all();
    assert_eq!(all.len(), 13);
    assert_eq!(all[0], PlaceType::Shop);
    assert_eq!(all[12], PlaceType::Police);
    for (i, a) in all.iter().enumerate() {
        for b in all.iter().skip(i + 1) {
            assert_ne!(a, b);
        }
    }
}

#[test]
fn icon_names() {
    assert_eq!(PlaceType::Shop.icon_name(), "shop-symbolic");
    assert_eq!(PlaceType::Restaurant.icon_name(), "fast-food-symbolic");
    assert_eq!(PlaceType::Police.icon_name(), "police-badge-symbolic");
}

#[test]
fn from_raw_maps_tags_to_types() {
    assert_eq!(PlaceType::from_raw("bar"), Some(PlaceType::Restaurant));
    assert_eq!(PlaceType::from_raw("fuel"), Some(PlaceType::Fuel));
    assert_eq!(PlaceType::from_raw("atm"), Some(PlaceType::Bank));
    assert_eq!(PlaceType::from_raw("place_of_worship"), Some(PlaceType::Church));
    assert_eq!(PlaceType::from_raw("spaceport"), None);
    assert_eq!(PlaceType::from_raw(""), None);
}

#[test]
fn raw_tags_round_trip_through_from_raw() {
    for t in PlaceType::all() {
        for tag in t.as_raw() {
            assert_eq!(PlaceType::from_raw(tag), Some(t));
        }
    }
}

#[test]
fn place_name_falls_back_to_type_display_name() {
    let named = Place {
        type_: PlaceType::Fuel,
        location: Location { latitude: 1, longitude: 2 },
        name: Some("Shelly".to_string()),
    };
    assert_eq!(named.name(), "Shelly");
    assert_eq!(named.type_(), PlaceType::Fuel);
    assert_eq!(*named.location(), Location { latitude: 1, longitude: 2 });
    let unnamed = Place {
        type_: PlaceType::Pharmacy,
        location: Location { latitude: 0, longitude: 0 },
        name: None,
    };
    assert_eq!(unnamed.name(), "Pharmacy");
}

#[test]
fn signal_quality_icon_names() {
    assert_eq!(SignalQuality::Okay.icon_name(), "network-cellular-signal-ok-symbolic");
    assert_eq!(SignalQuality::NoSignal.icon_name(), "network-cellular-signal-none-symbolic");
    assert_eq!(
        SignalQuality::Excellent.icon_name(),
        "network-cellular-signal-excellent-symbolic"
    );
}
