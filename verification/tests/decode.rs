use mensa_plan::Generation;
use mensa_plan::MensaError;
use mensa_plan::decode::decode;
use mensa_plan::mensa::Weekday;

fn week_doc() -> &'static str {
    "<?xml version=\"1.0\" encoding=\"UTF-8\"?>\n\
     <plan>\n\
       <ort id=\"610\">\n\
         <mensa>Rempartstra\u{00df}e</mensa>\n\
         <tagesplan datum=\"23.05.2023\">\n\
           <menue>\n\
             <art>Menu 1</art>\n\
             <zusatz>vegetarisch</zusatz>\n\
             <name>Pasta</name>\n\
             <preis studierende=\"3.50\" angestellte=\"5.20\" gaeste=\"7.00\" schueler=\"3.00\"/>\n\
           </menue>\n\
           <menue>\n\
             <art>Menu 2</art>\n\
             <name>Salat</name>\n\
             <preis studierende=\"2.90\" angestellte=\"4.20\" gaeste=\"5.80\" schueler=\"2.60\"/>\n\
           </menue>\n\
         </tagesplan>\n\
       </ort>\n\
     </plan>\n"
}

#[test]
fn one_day_two_menues() {
    let plan = decode(Generation::Current, week_doc()).unwrap();
    assert_eq!(plan.place.id, "610");
    assert_eq!(plan.mensa_name(), "Rempartstra\u{00df}e");
    let days = plan.place.days();
    assert_eq!(days.len(), 1);
    assert_eq!(days[0].date(), "23.05.2023");
    assert_eq!(days[0].menues.len(), 2);
    let first = &days[0].menues[0];
    assert_eq!(first.art, "Menu 1");
    assert_eq!(first.food_type.as_deref(), Some("vegetarisch"));
    assert_eq!(first.name, "Pasta");
    assert_eq!(first.price.price_students, "3.50");
    assert_eq!(first.price.price_workers, "5.20");
    assert_eq!(first.price.price_guests, "7.00");
    assert_eq!(first.price.price_school, "3.00");
    let second = &days[0].menues[1];
    assert_eq!(second.food_type, None);
    assert_eq!(second.price.price_students, "2.90");
}

#[test]
fn missing_preis_is_schema_mismatch() {
    let doc = "<plan><ort id=\"610\"><mensa>M</mensa>\
               <tagesplan datum=\"23.05.2023\">\
               <menue><art>A</art><name>N</name></menue>\
               </tagesplan></ort></plan>";
    assert!(matches!(decode(Generation::Current, doc), Err(MensaError::SchemaMismatch)));
}

#[test]
fn missing_price_attribute_is_schema_mismatch() {
    let doc = "<plan><ort id=\"610\"><mensa>M</mensa>\
               <tagesplan datum=\"23.05.2023\">\
               <menue><art>A</art><name>N</name>\
               <preis studierende=\"1\" angestellte=\"2\" gaeste=\"3\"/></menue>\
               </tagesplan></ort></plan>";
    assert!(matches!(decode(Generation::Current, doc), Err(MensaError::SchemaMismatch)));
}

#[test]
fn missing_mensa_is_schema_mismatch() {
    let doc = "<plan><ort id=\"610\"></ort></plan>";
    assert!(matches!(decode(Generation::Current, doc), Err(MensaError::SchemaMismatch)));
}

#[test]
fn missing_ort_id_is_schema_mismatch() {
    let doc = "<plan><ort><mensa>M</mensa></ort></plan>";
    assert!(matches!(decode(Generation::Current, doc), Err(MensaError::SchemaMismatch)));
}

#[test]
fn missing_datum_is_schema_mismatch() {
    let doc = "<plan><ort id=\"610\"><mensa>M</mensa><tagesplan></tagesplan></ort></plan>";
    assert!(matches!(decode(Generation::Current, doc), Err(MensaError::SchemaMismatch)));
}

#[test]
fn wrong_root_is_schema_mismatch() {
    let doc = "<speiseplan></speiseplan>";
    assert!(matches!(decode(Generation::Current, doc), Err(MensaError::SchemaMismatch)));
}

#[test]
fn missing_plan_ort_is_schema_mismatch() {
    let doc = "<plan></plan>";
    assert!(matches!(decode(Generation::Current, doc), Err(MensaError::SchemaMismatch)));
}

#[test]
fn truncated_document_is_malformed() {
    let doc = "<plan><ort id=\"610\"><mensa>M</mensa>";
    assert!(matches!(decode(Generation::Current, doc), Err(MensaError::MalformedDocument)));
}

#[test]
fn plain_text_is_malformed() {
    assert!(matches!(decode(Generation::Current, "no xml here"), Err(MensaError::MalformedDocument)));
    assert!(matches!(decode(Generation::Current, ""), Err(MensaError::MalformedDocument)));
}

#[test]
fn mismatched_close_tag_is_malformed() {
    let doc = "<plan><ort id=\"610\"><mensa>M</mensa></plan></ort>";
    assert!(matches!(decode(Generation::Current, doc), Err(MensaError::MalformedDocument)));
}

#[test]
fn unknown_elements_are_ignored() {
    let doc = "<plan><extra info=\"x\"><nested/></extra><ort id=\"610\">\
               <mensa>M</mensa><hinweis>geschlossen</hinweis>\
               <tagesplan datum=\"24.05.2023\"><menue><art>A</art><name>N</name>\
               <beilage>Reis</beilage>\
               <preis studierende=\"1\" angestellte=\"2\" gaeste=\"3\" schueler=\"4\"/>\
               </menue></tagesplan></ort></plan>";
    let plan = decode(Generation::Current, doc).unwrap();
    assert_eq!(plan.place.days().len(), 1);
    assert_eq!(plan.place.days()[0].menues.len(), 1);
}

#[test]
fn single_quoted_attributes_are_accepted() {
    let doc = "<plan><ort id='610'><mensa>M</mensa></ort></plan>";
    let plan = decode(Generation::Current, doc).unwrap();
    assert_eq!(plan.place.id, "610");
}

#[test]
fn duplicate_known_field_keeps_the_first() {
    let doc = "<plan><ort id=\"610\"><mensa>M</mensa>\
               <tagesplan datum=\"24.05.2023\"><menue>\
               <art>First</art><art>Second</art><name>N</name>\
               <preis studierende=\"1\" angestellte=\"2\" gaeste=\"3\" schueler=\"4\"/>\
               </menue></tagesplan></ort></plan>";
    let plan = decode(Generation::Current, doc).unwrap();
    assert_eq!(plan.place.days()[0].menues[0].art, "First");
}

#[test]
fn legacy_generation_reads_days_under_mensa() {
    let doc = "<plan><ort id=\"630\"><mensa>Littenweiler\
               <tagesplan datum=\"23.05.2023\"><menue><art>A</art><name>N</name>\
               <preis studierende=\"1\" angestellte=\"2\" gaeste=\"3\" schueler=\"4\"/>\
               </menue></tagesplan></mensa></ort></plan>";
    let plan = decode(Generation::Legacy, doc).unwrap();
    assert_eq!(plan.place.days().len(), 1);
    // under the current generation the same nesting holds no recognised days
    let plan = decode(Generation::Current, doc).unwrap();
    assert_eq!(plan.place.days().len(), 0);
}

#[test]
fn day_lookup_keeps_the_last_entry_per_weekday() {
    let doc = "<plan><ort id=\"610\"><mensa>M</mensa>\
               <tagesplan datum=\"23.05.2023\"><menue><art>Early</art><name>N</name>\
               <preis studierende=\"1\" angestellte=\"2\" gaeste=\"3\" schueler=\"4\"/>\
               </menue></tagesplan>\
               <tagesplan datum=\"24.05.2023\"/>\
               <tagesplan datum=\"30.05.2023\"><menue><art>Late</art><name>N</name>\
               <preis studierende=\"1\" angestellte=\"2\" gaeste=\"3\" schueler=\"4\"/>\
               </menue></tagesplan>\
               </ort></plan>";
    let plan = decode(Generation::Current, doc).unwrap();
    assert_eq!(plan.place.days().len(), 3);
    // both the first and the third day are Tuesdays: the last one wins
    let tue = plan.day(Weekday::Tue).unwrap();
    assert_eq!(tue.date(), "30.05.2023");
    assert_eq!(tue.menues[0].art, "Late");
    let wed = plan.day(Weekday::Wed).unwrap();
    assert_eq!(wed.date(), "24.05.2023");
    assert_eq!(wed.menues.len(), 0);
    assert!(plan.day(Weekday::Fri).is_none());
}

#[test]
fn days_fold_skips_unresolvable_dates() {
    let doc = "<plan><ort id=\"610\"><mensa>M</mensa>\
               <tagesplan datum=\"23.05.2023\"/>\
               <tagesplan datum=\"gestern\"/>\
               </ort></plan>";
    let plan = decode(Generation::Current, doc).unwrap();
    assert_eq!(plan.place.days().len(), 2);
    let entries = plan.days();
    assert_eq!(entries.len(), 1);
    assert_eq!(entries[0].weekday, Weekday::Tue);
    assert_eq!(entries[0].day.date(), "23.05.2023");
}

#[test]
fn days_are_listed_in_week_order() {
    let doc = "<plan><ort id=\"610\"><mensa>M</mensa>\
               <tagesplan datum=\"26.05.2023\"/>\
               <tagesplan datum=\"22.05.2023\"/>\
               <tagesplan datum=\"24.05.2023\"/>\
               </ort></plan>";
    let plan = decode(Generation::Current, doc).unwrap();
    let entries = plan.days();
    assert_eq!(entries.len(), 3);
    assert_eq!(entries[0].weekday, Weekday::Mon);
    assert_eq!(entries[1].weekday, Weekday::Wed);
    assert_eq!(entries[2].weekday, Weekday::Fri);
}

#[test]
fn day_weekday_resolves_from_raw_date() {
    let plan = decode(Generation::Current, week_doc()).unwrap();
    assert_eq!(plan.place.days()[0].weekday(), Ok(Weekday::Tue));
}
