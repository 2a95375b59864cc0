//! A known peer on the overlay: an immutable node key plus the mutable
//! attributes that property broadcasts keep up to date.
use vstd::prelude::*;

use crate::envelope::{Location, Property, SignalQuality};

verus! {

/// A peer known to the registry. The node key is fixed at creation; every
/// other field is updated from inbound property broadcasts.
#[derive(Debug)]
pub struct Peer {
    /// The node key; fixed when the peer is created and never updated.
    pub key: u64,
    pub name: String,
    pub location: Option<Location>,
    /// Speed over ground, in millimetres per second.
    pub speed: u64,
    pub signal_quality: SignalQuality,
    pub icon_name: String,
}

impl Clone for Peer {
    fn clone(&self) -> (r: Self)
        ensures
            r == *self,
    {
        Peer {
            key: self.key,
            name: self.name.clone(),
            location: self.location,
            speed: self.speed,
            signal_quality: self.signal_quality,
            icon_name: self.icon_name.clone(),
        }
    }
}

impl Peer {
    /// A freshly discovered peer: known by key only, with empty attributes.
    pub fn new(key: u64) -> (r: Peer)
        ensures
            r.spec_id() == key,
            r.name@ == Seq::<char>::empty(),
            r.location is None,
            r.speed == 0,
            r.signal_quality == SignalQuality::NoSignal,
            r.icon_name@ == Seq::<char>::empty(),
    {
        Peer {
            key,
            name: String::new(),
            location: None,
            speed: 0,
            signal_quality: SignalQuality::NoSignal,
            icon_name: String::new(),
        }
    }

    /// The peer's immutable node key.
    pub fn id(&self) -> (r: u64)
        ensures
            r == self.key,
    {
        self.key
    }

    /// The node key, for use in contracts.
    pub open spec fn spec_id(self) -> u64 {
        self.key
    }

    /// Whether this is the fresh entry [`Peer::new`] makes for `key`: known
    /// by key only, every attribute still empty.
    pub open spec fn is_blank(self, key: u64) -> bool {
        &&& self.key == key
        &&& self.name@ == Seq::<char>::empty()
        &&& self.location is None
        &&& self.speed == 0
        &&& self.signal_quality == SignalQuality::NoSignal
        &&& self.icon_name@ == Seq::<char>::empty()
    }

    /// The peer after one property broadcast entry has been applied. The
    /// node key is never among the replaced attributes.
    pub open spec fn spec_with_property(self, prop: Property) -> Peer {
        match prop {
            Property::Name(n) => Peer { name: n, ..self },
            Property::Location(l) => Peer { location: l, ..self },
            Property::Speed(s) => Peer { speed: s, ..self },
            Property::SignalQuality(q) => Peer { signal_quality: q, ..self },
            Property::IconName(n) => Peer { icon_name: n, ..self },
        }
    }

    /// Applies one property broadcast entry, replacing the named attribute.
    pub fn apply_property(&mut self, prop: &Property)
        ensures
            *final(self) == old(self).spec_with_property(*prop),
            final(self).spec_id() == old(self).spec_id(),
    {
        match prop {
            Property::Name(n) => {
                self.name = n.clone();
            },
            Property::Location(l) => {
                self.location = *l;
            },
            Property::Speed(s) => {
                self.speed = *s;
            },
            Property::SignalQuality(q) => {
                self.signal_quality = *q;
            },
            Property::IconName(n) => {
                self.icon_name = n.clone();
            },
        }
    }
}

} // verus!
