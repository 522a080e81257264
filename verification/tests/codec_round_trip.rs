use slack_events::codec::{message_from_json, message_to_json};
use slack_events::json::{parse_text, to_text, Json};

fn reencode(text: &str) -> String {
    let doc = parse_text(text).expect("parses");
    let msg = message_from_json(&doc).expect("decodes");
    to_text(&message_to_json(&msg))
}

#[test]
fn nested_previous_message_round_trips_exactly() {
    let text = "{\"ts\":\"2\",\"channel\":\"C1\",\"previous_message\":{\"ts\":\"1\",\"text\":\"old\"},\"subtype\":\"message_changed\",\"user\":\"U1\"}";
    let once = reencode(text);
    assert_eq!(
        once,
        "{\"ts\":\"2\",\"channel\":\"C1\",\"previous_message\":{\"ts\":\"1\",\"text\":\"old\"},\"subtype\":\"message_changed\",\"user\":\"U1\"}"
    );
    let twice = reencode(&once);
    assert_eq!(once, twice);
}

#[test]
fn absent_fields_stay_absent() {
    let once = reencode("{\"ts\":\"7\"}");
    assert_eq!(once, "{\"ts\":\"7\"}");
}

#[test]
fn null_optional_field_reads_as_absent() {
    let once = reencode("{\"ts\":\"7\",\"text\":null}");
    assert_eq!(once, "{\"ts\":\"7\"}");
}

#[test]
fn unknown_fields_are_ignored() {
    let once = reencode("{\"ts\":\"7\",\"something_new\":[1,2,{\"a\":true}],\"text\":\"hi\"}");
    assert_eq!(once, "{\"ts\":\"7\",\"text\":\"hi\"}");
}

#[test]
fn booleans_reactions_and_pins_round_trip() {
    let text = "{\"ts\":\"9\",\"edited\":{\"user\":\"U1\",\"ts\":\"8\"},\"hidden\":true,\"is_starred\":false,\"pinned_to\":[\"U1\",\"U2\"],\"reactions\":[{\"name\":\"wave\",\"count\":2,\"users\":[\"U1\",\"U2\"]}]}";
    let once = reencode(text);
    assert_eq!(once, text);
}

#[test]
fn message_field_order_is_canonical_on_reencode() {
    let shuffled = "{\"user\":\"U1\",\"ts\":\"3\",\"channel\":\"C2\"}";
    let once = reencode(shuffled);
    assert_eq!(once, "{\"ts\":\"3\",\"channel\":\"C2\",\"user\":\"U1\"}");
}

#[test]
fn message_missing_ts_is_rejected() {
    let doc = parse_text("{\"channel\":\"C1\"}").expect("parses");
    assert!(message_from_json(&doc).is_none());
}

#[test]
fn message_with_wrongly_typed_field_is_rejected() {
    let doc = parse_text("{\"ts\":\"1\",\"channel\":7}").expect("parses");
    assert!(message_from_json(&doc).is_none());
    let doc2 = parse_text("{\"ts\":\"1\",\"hidden\":\"yes\"}").expect("parses");
    assert!(message_from_json(&doc2).is_none());
}

#[test]
fn deep_nesting_decodes_as_a_tree() {
    let text = "{\"ts\":\"3\",\"message\":{\"ts\":\"2\",\"message\":{\"ts\":\"1\"}}}";
    let once = reencode(text);
    assert_eq!(once, text);
}

#[test]
fn encoder_output_matches_plain_construction() {
    let doc = parse_text("{\"ts\":\"1\"}").expect("parses");
    let msg = message_from_json(&doc).expect("decodes");
    match message_to_json(&msg) {
        Json::Obj(fields) => {
            assert_eq!(fields.len(), 1);
            assert_eq!(fields[0].0, "ts");
            assert!(matches!(&fields[0].1, Json::Str(s) if s == "1"));
        },
        _ => panic!("a message encodes as an object"),
    }
}
