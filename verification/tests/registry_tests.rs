use delta::envelope::{Location, Property, SignalQuality};
use delta::peer::Peer;
use delta::peer_list::{ListChange, PeerList};

fn named_peer(key: u64, name: &str) -> Peer {
    let mut p = Peer::new(key);
    p.name = name.to_string();
    p
}

/// Applies one change notification to a plain key list, the way an observer
/// replays diffs.
fn replay(keys: &mut Vec<u64>, c: &ListChange) {
    let tail: Vec<u64> = keys.split_off(c.position + c.removed);
    keys.truncate(c.position);
    keys.extend(c.added_keys.iter().copied());
    keys.extend(tail);
}

fn keys_of(list: &PeerList) -> Vec<u64> {
    let mut keys = Vec::new();
    let mut i = 0;
    while let Some(p) = list.item(i) {
        keys.push(p.id());
        i += 1;
    }
    keys
}

#[test]
fn insert_and_lookup() {
    let mut list = PeerList::new();
    assert_eq!(list.len(), 0);
    assert!(list.insert(named_peer(1, "a")));
    assert!(list.insert(named_peer(2, "b")));
    assert_eq!(list.len(), 2);
    assert!(list.contains(1));
    assert!(!list.contains(3));
    assert_eq!(list.get(1).unwrap().name, "a");
    assert_eq!(list.get(2).unwrap().name, "b");
    assert!(list.get(3).is_none());
    assert_eq!(list.item(0).unwrap().id(), 1);
    assert_eq!(list.item(1).unwrap().id(), 2);
    assert!(list.item(2).is_none());
}

#[test]
fn upsert_keeps_position_and_updates_fields() {
    let mut list = PeerList::new();
    list.insert(named_peer(1, "a"));
    list.insert(named_peer(2, "b"));
    list.insert(named_peer(3, "c"));
    // Re-inserting key 2 must keep it in the middle and replace its fields.
    assert!(!list.insert(named_peer(2, "b-updated")));
    assert_eq!(keys_of(&list), vec![1, 2, 3]);
    assert_eq!(list.get(2).unwrap().name, "b-updated");
    assert_eq!(list.len(), 3);
    let last = list.changes().last().unwrap();
    assert_eq!(last.position, 1);
    assert_eq!(last.removed, 1);
    assert_eq!(last.added_keys, vec![2]);
}

#[test]
fn remove_shifts_later_entries_down() {
    let mut list = PeerList::new();
    list.insert(named_peer(1, "a"));
    list.insert(named_peer(2, "b"));
    list.insert(named_peer(3, "c"));
    assert!(list.remove(2));
    assert_eq!(keys_of(&list), vec![1, 3]);
    assert_eq!(list.item(1).unwrap().id(), 3);
    assert!(!list.remove(2));
    assert_eq!(list.len(), 2);
    let last = list.changes().last().unwrap();
    assert_eq!(last.position, 1);
    assert_eq!(last.removed, 1);
    assert!(last.added_keys.is_empty());
}

#[test]
fn removing_absent_key_records_no_change() {
    let mut list = PeerList::new();
    list.insert(named_peer(1, "a"));
    let before = list.changes().len();
    assert!(!list.remove(99));
    assert_eq!(list.changes().len(), before);
}

#[test]
fn change_log_replays_to_final_key_order() {
    let mut list = PeerList::new();
    list.insert(named_peer(5, "a"));
    list.insert(named_peer(9, "b"));
    list.insert(named_peer(2, "c"));
    list.remove(9);
    list.insert(named_peer(9, "b2"));
    list.insert(named_peer(5, "a2"));
    list.remove(2);
    let mut replayed: Vec<u64> = Vec::new();
    for c in list.changes() {
        replay(&mut replayed, c);
    }
    assert_eq!(replayed, keys_of(&list));
    assert_eq!(replayed, vec![5, 9]);
}

#[test]
fn update_peer_changes_fields_not_order() {
    let mut list = PeerList::new();
    list.insert(named_peer(1, "a"));
    list.insert(named_peer(2, "b"));
    let log_len = list.changes().len();
    assert!(list.update_peer(1, &Property::Speed(777)));
    assert!(list.update_peer(1, &Property::SignalQuality(SignalQuality::Excellent)));
    assert!(list.update_peer(
        1,
        &Property::Location(Some(Location { latitude: 10, longitude: -20 }))
    ));
    assert!(!list.update_peer(42, &Property::Speed(1)));
    let p = list.get(1).unwrap();
    assert_eq!(p.speed, 777);
    assert_eq!(p.signal_quality, SignalQuality::Excellent);
    assert_eq!(p.location, Some(Location { latitude: 10, longitude: -20 }));
    assert_eq!(keys_of(&list), vec![1, 2]);
    // Field updates emit no list-change notifications.
    assert_eq!(list.changes().len(), log_len);
}

#[test]
fn fresh_peer_is_blank() {
    let p = Peer::new(77);
    assert_eq!(p.id(), 77);
    assert_eq!(p.name, "");
    assert_eq!(p.location, None);
    assert_eq!(p.speed, 0);
    assert_eq!(p.signal_quality, SignalQuality::NoSignal);
    assert_eq!(p.icon_name, "");
}
