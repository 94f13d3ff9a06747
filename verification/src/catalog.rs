//! The closed catalog of supported cafeteria locations.

use vstd::prelude::*;
use vstd::string::StringExecFns;

use crate::error::MensaError;
use crate::strutil::str_eq;

verus! {

/// A physical cafeteria location the upstream API knows about.
///
/// The catalog is closed: adding an upstream location means adding a variant
/// here, together with its identifier in [`spec_id`] and its display name in
/// [`spec_display_name`]. No two variants share an identifier; the proof
/// functions [`lemma_catalog_id_roundtrip`] and [`lemma_catalog_id_injective`]
/// state the bijection between the variants and their identifiers.
#[derive(Debug, Clone, Copy, PartialEq, Eq, Hash, Structural)]
pub enum MensaPlace {
    Rempartstrasse,
    Institutsviertel,
    Littenweiler,
    Flugplatz,
    Furtwangen,
    Offenburg,
    Gengenbach,
    Kehl,
    Schwenningen,
    Loerrach,
    MusiKantine,
    OttoHahnFurtwangen,
    Trossingen,
}

/// The numeric identifier string the upstream API uses for each location.
pub open spec fn spec_id(p: MensaPlace) -> Seq<char> {
    match p {
        MensaPlace::Rempartstrasse => "610"@,
        MensaPlace::Institutsviertel => "620"@,
        MensaPlace::Littenweiler => "630"@,
        MensaPlace::Furtwangen => "641"@,
        MensaPlace::Offenburg => "651"@,
        MensaPlace::Gengenbach => "652"@,
        MensaPlace::Kehl => "661"@,
        MensaPlace::Schwenningen => "671"@,
        MensaPlace::Loerrach => "677"@,
        MensaPlace::Flugplatz => "681"@,
        MensaPlace::MusiKantine => "722"@,
        MensaPlace::OttoHahnFurtwangen => "9012"@,
        MensaPlace::Trossingen => "9019"@,
    }
}

/// The display name of each location.
pub open spec fn spec_display_name(p: MensaPlace) -> Seq<char> {
    match p {
        MensaPlace::Rempartstrasse => "Rempartstraße"@,
        MensaPlace::Institutsviertel => "Institutsviertel"@,
        MensaPlace::Littenweiler => "Littenweiler"@,
        MensaPlace::Furtwangen => "Furtwangen"@,
        MensaPlace::Offenburg => "Offenburg"@,
        MensaPlace::Gengenbach => "Gengenbach"@,
        MensaPlace::Kehl => "Kehl"@,
        MensaPlace::Schwenningen => "Schwenningen"@,
        MensaPlace::Loerrach => "Lörrach"@,
        MensaPlace::Flugplatz => "Flugplatz"@,
        MensaPlace::MusiKantine => "MusiKantine"@,
        MensaPlace::OttoHahnFurtwangen => "Otto-Hahn-Gymnasium Furtwangen"@,
        MensaPlace::Trossingen => "Trossingen"@,
    }
}

/// Which location an identifier string selects: the unique variant whose
/// identifier equals the string, or `UnknownLocation` for any other string.
pub open spec fn spec_place_of_id(s: Seq<char>) -> Result<MensaPlace, MensaError> {
    if s == "610"@ {
        Ok(MensaPlace::Rempartstrasse)
    } else if s == "620"@ {
        Ok(MensaPlace::Institutsviertel)
    } else if s == "630"@ {
        Ok(MensaPlace::Littenweiler)
    } else if s == "641"@ {
        Ok(MensaPlace::Furtwangen)
    } else if s == "651"@ {
        Ok(MensaPlace::Offenburg)
    } else if s == "652"@ {
        Ok(MensaPlace::Gengenbach)
    } else if s == "661"@ {
        Ok(MensaPlace::Kehl)
    } else if s == "671"@ {
        Ok(MensaPlace::Schwenningen)
    } else if s == "677"@ {
        Ok(MensaPlace::Loerrach)
    } else if s == "681"@ {
        Ok(MensaPlace::Flugplatz)
    } else if s == "722"@ {
        Ok(MensaPlace::MusiKantine)
    } else if s == "9012"@ {
        Ok(MensaPlace::OttoHahnFurtwangen)
    } else if s == "9019"@ {
        Ok(MensaPlace::Trossingen)
    } else {
        Err(MensaError::UnknownLocation)
    }
}

/// All locations of the catalog, in identifier order.
pub open spec fn spec_all_places() -> Seq<MensaPlace> {
    seq![
        MensaPlace::Rempartstrasse,
        MensaPlace::Institutsviertel,
        MensaPlace::Littenweiler,
        MensaPlace::Furtwangen,
        MensaPlace::Offenburg,
        MensaPlace::Gengenbach,
        MensaPlace::Kehl,
        MensaPlace::Schwenningen,
        MensaPlace::Loerrach,
        MensaPlace::Flugplatz,
        MensaPlace::MusiKantine,
        MensaPlace::OttoHahnFurtwangen,
        MensaPlace::Trossingen,
    ]
}

impl MensaPlace {
    /// The identifier string sent to the upstream API for this location.
    pub fn id(&self) -> (r: String)
        ensures
            r@ == spec_id(*self),
    {
        match *self {
            MensaPlace::Rempartstrasse => String::from_str("610"),
            MensaPlace::Institutsviertel => String::from_str("620"),
            MensaPlace::Littenweiler => String::from_str("630"),
            MensaPlace::Furtwangen => String::from_str("641"),
            MensaPlace::Offenburg => String::from_str("651"),
            MensaPlace::Gengenbach => String::from_str("652"),
            MensaPlace::Kehl => String::from_str("661"),
            MensaPlace::Schwenningen => String::from_str("671"),
            MensaPlace::Loerrach => String::from_str("677"),
            MensaPlace::Flugplatz => String::from_str("681"),
            MensaPlace::MusiKantine => String::from_str("722"),
            MensaPlace::OttoHahnFurtwangen => String::from_str("9012"),
            MensaPlace::Trossingen => String::from_str("9019"),
        }
    }

    /// The human-readable name of this location.
    pub fn name(&self) -> (r: String)
        ensures
            r@ == spec_display_name(*self),
    {
        match *self {
            MensaPlace::Rempartstrasse => String::from_str("Rempartstraße"),
            MensaPlace::Institutsviertel => String::from_str("Institutsviertel"),
            MensaPlace::Littenweiler => String::from_str("Littenweiler"),
            MensaPlace::Furtwangen => String::from_str("Furtwangen"),
            MensaPlace::Offenburg => String::from_str("Offenburg"),
            MensaPlace::Gengenbach => String::from_str("Gengenbach"),
            MensaPlace::Kehl => String::from_str("Kehl"),
            MensaPlace::Schwenningen => String::from_str("Schwenningen"),
            MensaPlace::Loerrach => String::from_str("Lörrach"),
            MensaPlace::Flugplatz => String::from_str("Flugplatz"),
            MensaPlace::MusiKantine => String::from_str("MusiKantine"),
            MensaPlace::OttoHahnFurtwangen => String::from_str("Otto-Hahn-Gymnasium Furtwangen"),
            MensaPlace::Trossingen => String::from_str("Trossingen"),
        }
    }

    /// Looks an identifier string up in the catalog.
    pub fn try_from(value: &str) -> (r: Result<MensaPlace, MensaError>)
        ensures
            r == spec_place_of_id(value@),
    {
        if str_eq(value, "610") {
            Ok(MensaPlace::Rempartstrasse)
        } else if str_eq(value, "620") {
            Ok(MensaPlace::Institutsviertel)
        } else if str_eq(value, "630") {
            Ok(MensaPlace::Littenweiler)
        } else if str_eq(value, "641") {
            Ok(MensaPlace::Furtwangen)
        } else if str_eq(value, "651") {
            Ok(MensaPlace::Offenburg)
        } else if str_eq(value, "652") {
            Ok(MensaPlace::Gengenbach)
        } else if str_eq(value, "661") {
            Ok(MensaPlace::Kehl)
        } else if str_eq(value, "671") {
            Ok(MensaPlace::Schwenningen)
        } else if str_eq(value, "677") {
            Ok(MensaPlace::Loerrach)
        } else if str_eq(value, "681") {
            Ok(MensaPlace::Flugplatz)
        } else if str_eq(value, "722") {
            Ok(MensaPlace::MusiKantine)
        } else if str_eq(value, "9012") {
            Ok(MensaPlace::OttoHahnFurtwangen)
        } else if str_eq(value, "9019") {
            Ok(MensaPlace::Trossingen)
        } else {
            Err(MensaError::UnknownLocation)
        }
    }

    /// Every location of the catalog, in identifier order.
    pub fn all() -> (r: Vec<MensaPlace>)
        ensures
            r@ == spec_all_places(),
    {
        let mut v: Vec<MensaPlace> = Vec::new();
        v.push(MensaPlace::Rempartstrasse);
        v.push(MensaPlace::Institutsviertel);
        v.push(MensaPlace::Littenweiler);
        v.push(MensaPlace::Furtwangen);
        v.push(MensaPlace::Offenburg);
        v.push(MensaPlace::Gengenbach);
        v.push(MensaPlace::Kehl);
        v.push(MensaPlace::Schwenningen);
        v.push(MensaPlace::Loerrach);
        v.push(MensaPlace::Flugplatz);
        v.push(MensaPlace::MusiKantine);
        v.push(MensaPlace::OttoHahnFurtwangen);
        v.push(MensaPlace::Trossingen);
        proof {
            assert(v@ =~= spec_all_places());
        }
        v
    }
}

/// The identifier literals, spelled out character by character, so that any
/// two of them are provably different.
proof fn lemma_ids_concrete()
    ensures
        "610"@ == seq!['6', '1', '0'],
        "620"@ == seq!['6', '2', '0'],
        "630"@ == seq!['6', '3', '0'],
        "641"@ == seq!['6', '4', '1'],
        "651"@ == seq!['6', '5', '1'],
        "652"@ == seq!['6', '5', '2'],
        "661"@ == seq!['6', '6', '1'],
        "671"@ == seq!['6', '7', '1'],
        "677"@ == seq!['6', '7', '7'],
        "681"@ == seq!['6', '8', '1'],
        "722"@ == seq!['7', '2', '2'],
        "9012"@ == seq!['9', '0', '1', '2'],
        "9019"@ == seq!['9', '0', '1', '9'],
{
    reveal_strlit("610");
    reveal_strlit("620");
    reveal_strlit("630");
    reveal_strlit("641");
    reveal_strlit("651");
    reveal_strlit("652");
    reveal_strlit("661");
    reveal_strlit("671");
    reveal_strlit("677");
    reveal_strlit("681");
    reveal_strlit("722");
    reveal_strlit("9012");
    reveal_strlit("9019");
    assert("610"@ =~= seq!['6', '1', '0']);
    assert("620"@ =~= seq!['6', '2', '0']);
    assert("630"@ =~= seq!['6', '3', '0']);
    assert("641"@ =~= seq!['6', '4', '1']);
    assert("651"@ =~= seq!['6', '5', '1']);
    assert("652"@ =~= seq!['6', '5', '2']);
    assert("661"@ =~= seq!['6', '6', '1']);
    assert("671"@ =~= seq!['6', '7', '1']);
    assert("677"@ =~= seq!['6', '7', '7']);
    assert("681"@ =~= seq!['6', '8', '1']);
    assert("722"@ =~= seq!['7', '2', '2']);
    assert("9012"@ =~= seq!['9', '0', '1', '2']);
    assert("9019"@ =~= seq!['9', '0', '1', '9']);
}

/// Law: looking up a location's own identifier selects that location again.
pub proof fn lemma_catalog_id_roundtrip(p: MensaPlace)
    ensures
        spec_place_of_id(spec_id(p)) == Ok::<MensaPlace, MensaError>(p),
{
    lemma_ids_concrete();
    match p {
        MensaPlace::Rempartstrasse => assert(spec_place_of_id("610"@) == Ok::<
            MensaPlace,
            MensaError,
        >(p)),
        MensaPlace::Institutsviertel => assert(spec_place_of_id("620"@) == Ok::<
            MensaPlace,
            MensaError,
        >(p)),
        MensaPlace::Littenweiler => assert(spec_place_of_id("630"@) == Ok::<
            MensaPlace,
            MensaError,
        >(p)),
        MensaPlace::Furtwangen => assert(spec_place_of_id("641"@) == Ok::<
            MensaPlace,
            MensaError,
        >(p)),
        MensaPlace::Offenburg => assert(spec_place_of_id("651"@) == Ok::<
            MensaPlace,
            MensaError,
        >(p)),
        MensaPlace::Gengenbach => assert(spec_place_of_id("652"@) == Ok::<
            MensaPlace,
            MensaError,
        >(p)),
        MensaPlace::Kehl => assert(spec_place_of_id("661"@) == Ok::<MensaPlace, MensaError>(p)),
        MensaPlace::Schwenningen => assert(spec_place_of_id("671"@) == Ok::<
            MensaPlace,
            MensaError,
        >(p)),
        MensaPlace::Loerrach => assert(spec_place_of_id("677"@) == Ok::<MensaPlace, MensaError>(p)),
        MensaPlace::Flugplatz => assert(spec_place_of_id("681"@) == Ok::<
            MensaPlace,
            MensaError,
        >(p)),
        MensaPlace::MusiKantine => assert(spec_place_of_id("722"@) == Ok::<
            MensaPlace,
            MensaError,
        >(p)),
        MensaPlace::OttoHahnFurtwangen => assert(spec_place_of_id("9012"@) == Ok::<
            MensaPlace,
            MensaError,
        >(p)),
        MensaPlace::Trossingen => assert(spec_place_of_id("9019"@) == Ok::<
            MensaPlace,
            MensaError,
        >(p)),
    }
}

/// Law: an identifier the catalog accepts is the identifier of the location
/// it selects; together with [`lemma_catalog_id_roundtrip`] the mapping
/// between locations and identifier strings is a bijection over the catalog.
pub proof fn lemma_catalog_id_injective(s: Seq<char>, p: MensaPlace)
    requires
        spec_place_of_id(s) == Ok::<MensaPlace, MensaError>(p),
    ensures
        spec_id(p) == s,
{
}

} // verus!
