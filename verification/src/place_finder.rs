//! Kinds of nearby places the map can search for, and their mapping from the
//! raw amenity tags found in map data.
use vstd::prelude::*;
use vstd::string::StringExecFns;
use vstd::string::StrSliceExecFns;

verus! {

/// A kind of place a rider may look for.
#[derive(Debug, Clone, Copy, PartialEq, Eq, Hash, Structural)]
pub enum PlaceType {
    Shop,
    Restaurant,
    Fuel,
    Toilet,
    Hospital,
    Pharmacy,
    School,
    Parking,
    Cinema,
    Telephone,
    Bank,
    Church,
    Police,
}

/// All place types, in display order.
pub open spec fn spec_all_place_types() -> Seq<PlaceType> {
    seq![
        PlaceType::Shop,
        PlaceType::Restaurant,
        PlaceType::Fuel,
        PlaceType::Toilet,
        PlaceType::Hospital,
        PlaceType::Pharmacy,
        PlaceType::School,
        PlaceType::Parking,
        PlaceType::Cinema,
        PlaceType::Telephone,
        PlaceType::Bank,
        PlaceType::Church,
        PlaceType::Police,
    ]
}

/// The raw amenity tags that stand for each place type in map data.
pub open spec fn spec_raw_tags(p: PlaceType) -> Seq<Seq<char>> {
    match p {
        PlaceType::Restaurant => seq!["restaurant"@, "bar"@, "fast_food"@, "cafe"@],
        PlaceType::School => seq!["college"@, "school"@, "university"@, "library"@],
        PlaceType::Parking => seq!["parking"@],
        PlaceType::Hospital => seq![
            "hospital"@,
            "doctors"@,
            "dentist"@,
            "veterinary"@,
            "clinic"@,
        ],
        PlaceType::Pharmacy => seq!["pharmacy"@],
        PlaceType::Cinema => seq!["theatre"@, "cinema"@, "events_venue"@],
        PlaceType::Telephone => seq!["telephone"@],
        PlaceType::Bank => seq!["bank"@, "atm"@, "money_transfer"@, "bureau_de_change"@],
        PlaceType::Shop => seq!["marketplace"@],
        PlaceType::Church => seq!["place_of_worship"@],
        PlaceType::Fuel => seq!["fuel"@],
        PlaceType::Police => seq!["police"@],
        PlaceType::Toilet => seq!["toilets"@],
    }
}

/// The human-readable name of each place type.
pub open spec fn spec_display_name(p: PlaceType) -> Seq<char> {
    match p {
        PlaceType::Shop => "Shop"@,
        PlaceType::Restaurant => "Restaurant"@,
        PlaceType::Fuel => "Fuel"@,
        PlaceType::Toilet => "Toilet"@,
        PlaceType::Hospital => "Hospital"@,
        PlaceType::Pharmacy => "Pharmacy"@,
        PlaceType::School => "School"@,
        PlaceType::Parking => "Parking"@,
        PlaceType::Cinema => "Cinema"@,
        PlaceType::Telephone => "Telephone"@,
        PlaceType::Bank => "Bank"@,
        PlaceType::Church => "Church"@,
        PlaceType::Police => "Police"@,
    }
}

/// A place found in map data: its kind, position, and the name tagged on it,
/// if any.
#[derive(Debug, Clone)]
pub struct Place {
    pub type_: PlaceType,
    pub location: crate::envelope::Location,
    pub name: Option<String>,
}

impl Place {
    /// Where the place is.
    pub fn location(&self) -> (r: &crate::envelope::Location)
        ensures
            *r == self.location,
    {
        &self.location
    }

    /// What kind of place it is.
    pub fn type_(&self) -> (r: PlaceType)
        ensures
            r == self.type_,
    {
        self.type_
    }

    /// The place's tagged name, or its kind's display name when untagged.
    pub fn name(&self) -> (r: String)
        ensures
            r@ == match self.name {
                Some(n) => n@,
                None => spec_display_name(self.type_),
            },
    {
        match &self.name {
            Some(n) => n.clone(),
            None => self.type_.display_name(),
        }
    }
}

/// Whether two strings hold the same characters.
fn str_eq(a: &str, b: &str) -> (r: bool)
    ensures
        r == (a@ == b@),
{
    let na = a.unicode_len();
    let nb = b.unicode_len();
    if na != nb {
        proof {
            if a@ == b@ {
                assert(a@.len() == b@.len());
            }
        }
        return false;
    }
    let mut i: usize = 0;
    while i < na
        invariant
            i <= na,
            na == a@.len(),
            na == b@.len(),
            forall|j: int| 0 <= j < i ==> a@[j] == b@[j],
        decreases na - i,
    {
        if a.get_char(i) != b.get_char(i) {
            return false;
        }
        i = i + 1;
    }
    proof {
        assert(a@ =~= b@);
    }
    true
}

impl PlaceType {
    /// Every place type, in display order.
    pub fn all() -> (r: Vec<PlaceType>)
        ensures
            r@ == spec_all_place_types(),
    {
        let mut r: Vec<PlaceType> = Vec::new();
        r.push(PlaceType::Shop);
        r.push(PlaceType::Restaurant);
        r.push(PlaceType::Fuel);
        r.push(PlaceType::Toilet);
        r.push(PlaceType::Hospital);
        r.push(PlaceType::Pharmacy);
        r.push(PlaceType::School);
        r.push(PlaceType::Parking);
        r.push(PlaceType::Cinema);
        r.push(PlaceType::Telephone);
        r.push(PlaceType::Bank);
        r.push(PlaceType::Church);
        r.push(PlaceType::Police);
        proof {
            assert(r@ =~= spec_all_place_types());
        }
        r
    }

    /// The symbolic icon name shown for this place type.
    pub fn icon_name(&self) -> (r: String)
        ensures
            r@ == match *self {
                PlaceType::Shop => "shop-symbolic"@,
                PlaceType::Restaurant => "fast-food-symbolic"@,
                PlaceType::Fuel => "fuel-symbolic"@,
                PlaceType::Toilet => "toilets-symbolic"@,
                PlaceType::Hospital => "hospital-symbolic"@,
                PlaceType::Pharmacy => "pharmacy-symbolic"@,
                PlaceType::School => "school-symbolic"@,
                PlaceType::Parking => "parking-sign-symbolic"@,
                PlaceType::Cinema => "theater-symbolic"@,
                PlaceType::Telephone => "phone-oldschool-symbolic"@,
                PlaceType::Bank => "bank-symbolic"@,
                PlaceType::Church => "non-religious-cemetary-symbolic"@,
                PlaceType::Police => "police-badge-symbolic"@,
            },
    {
        match *self {
            PlaceType::Shop => String::from_str("shop-symbolic"),
            PlaceType::Restaurant => String::from_str("fast-food-symbolic"),
            PlaceType::Fuel => String::from_str("fuel-symbolic"),
            PlaceType::Toilet => String::from_str("toilets-symbolic"),
            PlaceType::Hospital => String::from_str("hospital-symbolic"),
            PlaceType::Pharmacy => String::from_str("pharmacy-symbolic"),
            PlaceType::School => String::from_str("school-symbolic"),
            PlaceType::Parking => String::from_str("parking-sign-symbolic"),
            PlaceType::Cinema => String::from_str("theater-symbolic"),
            PlaceType::Telephone => String::from_str("phone-oldschool-symbolic"),
            PlaceType::Bank => String::from_str("bank-symbolic"),
            PlaceType::Church => String::from_str("non-religious-cemetary-symbolic"),
            PlaceType::Police => String::from_str("police-badge-symbolic"),
        }
    }

    /// The human-readable name of this place type.
    pub fn display_name(&self) -> (r: String)
        ensures
            r@ == spec_display_name(*self),
    {
        match *self {
            PlaceType::Shop => String::from_str("Shop"),
            PlaceType::Restaurant => String::from_str("Restaurant"),
            PlaceType::Fuel => String::from_str("Fuel"),
            PlaceType::Toilet => String::from_str("Toilet"),
            PlaceType::Hospital => String::from_str("Hospital"),
            PlaceType::Pharmacy => String::from_str("Pharmacy"),
            PlaceType::School => String::from_str("School"),
            PlaceType::Parking => String::from_str("Parking"),
            PlaceType::Cinema => String::from_str("Cinema"),
            PlaceType::Telephone => String::from_str("Telephone"),
            PlaceType::Bank => String::from_str("Bank"),
            PlaceType::Church => String::from_str("Church"),
            PlaceType::Police => String::from_str("Police"),
        }
    }

    /// The raw amenity tags that stand for this place type in map data.
    pub fn as_raw(&self) -> (r: Vec<&'static str>)
        ensures
            r@.len() == spec_raw_tags(*self).len(),
            forall|j: int| 0 <= j < r@.len() ==> r@[j]@ == spec_raw_tags(*self)[j],
    {
        let mut r: Vec<&'static str> = Vec::new();
        match *self {
            PlaceType::Restaurant => {
                r.push("restaurant");
                r.push("bar");
                r.push("fast_food");
                r.push("cafe");
            },
            PlaceType::School => {
                r.push("college");
                r.push("school");
                r.push("university");
                r.push("library");
            },
            PlaceType::Parking => {
                r.push("parking");
            },
            PlaceType::Hospital => {
                r.push("hospital");
                r.push("doctors");
                r.push("dentist");
                r.push("veterinary");
                r.push("clinic");
            },
            PlaceType::Pharmacy => {
                r.push("pharmacy");
            },
            PlaceType::Cinema => {
                r.push("theatre");
                r.push("cinema");
                r.push("events_venue");
            },
            PlaceType::Telephone => {
                r.push("telephone");
            },
            PlaceType::Bank => {
                r.push("bank");
                r.push("atm");
                r.push("money_transfer");
                r.push("bureau_de_change");
            },
            PlaceType::Shop => {
                r.push("marketplace");
            },
            PlaceType::Church => {
                r.push("place_of_worship");
            },
            PlaceType::Fuel => {
                r.push("fuel");
            },
            PlaceType::Police => {
                r.push("police");
            },
            PlaceType::Toilet => {
                r.push("toilets");
            },
        }
        r
    }

    /// The place type one of whose raw tags is `raw`, if any; raw tags are
    /// disjoint across place types, searched in display order.
    pub fn from_raw(raw: &str) -> (r: Option<PlaceType>)
        ensures
            match r {
                Some(p) => spec_raw_tags(p).contains(raw@),
                None => forall|p: PlaceType| !spec_raw_tags(p).contains(raw@),
            },
    {
        let types = PlaceType::all();
        let mut i: usize = 0;
        while i < types.len()
            invariant
                i <= types.len(),
                types@ == spec_all_place_types(),
                forall|k: int|
                    0 <= k < i ==> !spec_raw_tags(#[trigger] types@[k]).contains(raw@),
            decreases types.len() - i,
        {
            let tags = types[i].as_raw();
            let mut j: usize = 0;
            while j < tags.len()
                invariant
                    i < types.len(),
                    j <= tags.len(),
                    types@ == spec_all_place_types(),
                    tags@.len() == spec_raw_tags(types@[i as int]).len(),
                    forall|m: int|
                        0 <= m < tags@.len() ==> tags@[m]@ == spec_raw_tags(types@[i as int])[m],
                    forall|m: int|
                        0 <= m < j ==> spec_raw_tags(types@[i as int])[m] != raw@,
                decreases tags.len() - j,
            {
                if str_eq(tags[j], raw) {
                    proof {
                        assert(spec_raw_tags(types@[i as int])[j as int] == raw@);
                    }
                    return Some(types[i]);
                }
                j = j + 1;
            }
            proof {
                assert(!spec_raw_tags(types@[i as int]).contains(raw@));
            }
            i = i + 1;
        }
        proof {
            assert forall|p: PlaceType| !spec_raw_tags(p).contains(raw@) by {
                let all = spec_all_place_types();
                match p {
                    PlaceType::Shop => assert(all[0] == p),
                    PlaceType::Restaurant => assert(all[1] == p),
                    PlaceType::Fuel => assert(all[2] == p),
                    PlaceType::Toilet => assert(all[3] == p),
                    PlaceType::Hospital => assert(all[4] == p),
                    PlaceType::Pharmacy => assert(all[5] == p),
                    PlaceType::School => assert(all[6] == p),
                    PlaceType::Parking => assert(all[7] == p),
                    PlaceType::Cinema => assert(all[8] == p),
                    PlaceType::Telephone => assert(all[9] == p),
                    PlaceType::Bank => assert(all[10] == p),
                    PlaceType::Church => assert(all[11] == p),
                    PlaceType::Police => assert(all[12] == p),
                }
            }
        }
        None
    }
}

} // verus!
