use mensa_plan::Generation;
use mensa_plan::MensaError;
use mensa_plan::MensaPlace;
use mensa_plan::collect_plans;
use mensa_plan::mensa::Mensa;
use mensa_plan::mensa::Place;
use mensa_plan::mensa::Plan;
use mensa_plan::process_response;

fn small_doc() -> &'static str {
    "<plan><ort id=\"610\"><mensa>M</mensa><tagesplan datum=\"23.05.2023\"/></ort></plan>"
}

fn some_plan(id: &str) -> Plan {
    Plan {
        place: Place {
            id: String::from(id),
            mensa: Mensa { name: String::from("M") },
            days: Vec::new(),
        },
    }
}

#[test]
fn status_404_fails_without_decoding() {
    // the body is a perfectly decodable plan: the status alone decides
    let r = process_response(Generation::Current, 404, small_doc());
    assert_eq!(r.err(), Some(MensaError::UnexpectedStatus(404)));
}

#[test]
fn other_non_success_statuses_fail() {
    assert_eq!(
        process_response(Generation::Current, 500, small_doc()).err(),
        Some(MensaError::UnexpectedStatus(500))
    );
    assert_eq!(
        process_response(Generation::Current, 301, "").err(),
        Some(MensaError::UnexpectedStatus(301))
    );
}

#[test]
fn status_200_reaches_the_decoder() {
    let plan = process_response(Generation::Current, 200, small_doc()).unwrap();
    assert_eq!(plan.place.id, "610");
    let bad = process_response(Generation::Current, 200, "garbage");
    assert_eq!(bad.err(), Some(MensaError::MalformedDocument));
}

#[test]
fn batch_with_one_failure_produces_no_partial_mapping() {
    let results = vec![
        (MensaPlace::Rempartstrasse, Ok(some_plan("610"))),
        (MensaPlace::Institutsviertel, Err(MensaError::UnexpectedStatus(404))),
        (MensaPlace::Littenweiler, Ok(some_plan("630"))),
    ];
    let r = collect_plans(&results);
    assert_eq!(r.err(), Some(MensaError::UnexpectedStatus(404)));
}

#[test]
fn batch_surfaces_the_first_failure() {
    let results = vec![
        (MensaPlace::Rempartstrasse, Err(MensaError::MalformedDocument)),
        (MensaPlace::Institutsviertel, Err(MensaError::UnexpectedStatus(503))),
    ];
    let r = collect_plans(&results);
    assert_eq!(r.err(), Some(MensaError::MalformedDocument));
}

#[test]
fn successful_batch_keeps_every_location_in_order() {
    let mut results = Vec::new();
    for place in MensaPlace::all() {
        results.push((place, Ok(some_plan(place.id().as_str()))));
    }
    let mapping = collect_plans(&results).unwrap();
    assert_eq!(mapping.len(), 13);
    for (k, place) in MensaPlace::all().into_iter().enumerate() {
        assert_eq!(mapping[k].0, place);
        assert_eq!(mapping[k].1.place.id, place.id());
    }
}

#[test]
fn retrying_a_fixed_backend_yields_the_same_keys() {
    let make = || {
        let mut results = Vec::new();
        for place in MensaPlace::all() {
            results.push((place, Ok(some_plan(place.id().as_str()))));
        }
        collect_plans(&results).unwrap()
    };
    let first: Vec<MensaPlace> = make().into_iter().map(|p| p.0).collect();
    let second: Vec<MensaPlace> = make().into_iter().map(|p| p.0).collect();
    assert_eq!(first, second);
}

#[test]
fn error_messages_name_each_kind() {
    assert_eq!(MensaError::RequestFailed.message(), "failed to send api request");
    assert_eq!(MensaError::UnexpectedStatus(404).message(), "status code not OK");
    assert!(MensaError::MalformedDocument.message().contains("xml"));
    assert!(MensaError::SchemaMismatch.message().contains("element"));
    assert!(MensaError::MalformedDate.message().contains("date"));
    assert!(MensaError::InvalidDate.message().contains("calendar"));
    assert!(MensaError::UnknownLocation.message().contains("catalog"));
}
