use mensa_plan::MensaError;
use mensa_plan::MensaPlace;

#[test]
fn id_roundtrip_over_catalog() {
    for place in MensaPlace::all() {
        let id = place.id();
        assert_eq!(MensaPlace::try_from(id.as_str()), Ok(place));
    }
}

#[test]
fn ids_unique_over_catalog() {
    let places = MensaPlace::all();
    for a in &places {
        for b in &places {
            if a != b {
                assert_ne!(a.id(), b.id());
            }
        }
    }
}

#[test]
fn catalog_has_thirteen_locations() {
    assert_eq!(MensaPlace::all().len(), 13);
}

#[test]
fn known_identifiers() {
    assert_eq!(MensaPlace::try_from("610"), Ok(MensaPlace::Rempartstrasse));
    assert_eq!(MensaPlace::try_from("677"), Ok(MensaPlace::Loerrach));
    assert_eq!(MensaPlace::try_from("9012"), Ok(MensaPlace::OttoHahnFurtwangen));
    assert_eq!(MensaPlace::Rempartstrasse.id(), "610");
    assert_eq!(MensaPlace::Trossingen.id(), "9019");
}

#[test]
fn unknown_identifier_is_rejected() {
    assert_eq!(MensaPlace::try_from("999"), Err(MensaError::UnknownLocation));
    assert_eq!(MensaPlace::try_from(""), Err(MensaError::UnknownLocation));
    assert_eq!(MensaPlace::try_from("61"), Err(MensaError::UnknownLocation));
    assert_eq!(MensaPlace::try_from("6100"), Err(MensaError::UnknownLocation));
}

#[test]
fn display_names() {
    assert_eq!(MensaPlace::Rempartstrasse.name(), "Rempartstraße");
    assert_eq!(MensaPlace::Loerrach.name(), "Lörrach");
    assert_eq!(MensaPlace::OttoHahnFurtwangen.name(), "Otto-Hahn-Gymnasium Furtwangen");
}
