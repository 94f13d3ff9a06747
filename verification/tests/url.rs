use mensa_plan::Generation;
use mensa_plan::MensaPlace;
use mensa_plan::UrlBuilder;

#[test]
fn current_generation_full_url() {
    let mut builder = UrlBuilder::new("ABC");
    builder.set_place(&MensaPlace::Rempartstrasse);
    let url = builder.build();
    assert_eq!(
        url,
        "https://www.swfr.de/index.php?id=1400&type=98&tx_swfrspeiseplan_pi1[ort]=610&tx_swfrspeiseplan_pi1[apiKey]=ABC"
    );
}

#[test]
fn current_generation_query_string() {
    let mut builder = UrlBuilder::new("ABC");
    builder.set_place(&MensaPlace::Rempartstrasse);
    let url = builder.build();
    let query = url.split('?').nth(1).unwrap();
    assert_eq!(
        query,
        "id=1400&type=98&tx_swfrspeiseplan_pi1[ort]=610&tx_swfrspeiseplan_pi1[apiKey]=ABC"
    );
}

#[test]
fn legacy_generation_full_url() {
    let mut builder = UrlBuilder::for_generation(Generation::Legacy, "KEY");
    builder.set_place(&MensaPlace::Littenweiler);
    let url = builder.build();
    assert_eq!(
        url,
        "https://www.swfr.de/apispeiseplan?type=98&tx_speiseplan_pi1[ort]=630&tx_speiseplan_pi1[apiKey]=KEY"
    );
}

#[test]
fn empty_query_emits_no_leading_delimiter() {
    let mut builder = UrlBuilder::new_empty_query("K");
    let url = builder.build();
    assert_eq!(url, "https://www.swfr.de/index.php?tx_swfrspeiseplan_pi1[apiKey]=K");
}

#[test]
fn add_query_para_appends_in_order() {
    let mut builder = UrlBuilder::new_empty_query("K");
    builder.add_query_para("a", "1");
    builder.add_query_para("b", "2");
    let url = builder.build();
    assert_eq!(url, "https://www.swfr.de/index.php?a=1&b=2&tx_swfrspeiseplan_pi1[apiKey]=K");
}

#[test]
fn building_is_deterministic_for_equal_state() {
    let mut first = UrlBuilder::new("ABC");
    first.set_place(&MensaPlace::Furtwangen);
    let mut second = UrlBuilder::new("ABC");
    second.set_place(&MensaPlace::Furtwangen);
    assert_eq!(first.build(), second.build());
}
