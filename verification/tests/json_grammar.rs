use slack_events::json::{parse_text, to_text, Json};

fn parses(text: &str) -> Json {
    parse_text(text).expect("parses")
}

#[test]
fn scalars_parse() {
    assert!(matches!(parses("null"), Json::Null));
    assert!(matches!(parses("true"), Json::Bool(true)));
    assert!(matches!(parses("false"), Json::Bool(false)));
    assert!(matches!(parses("42"), Json::UInt(42)));
    assert!(matches!(parses("0"), Json::UInt(0)));
    assert!(matches!(parses("18446744073709551615"), Json::UInt(u64::MAX)));
    assert!(matches!(parses("\"hi\""), Json::Str(s) if s == "hi"));
}

#[test]
fn number_too_large_for_u64_is_rejected() {
    assert!(parse_text("18446744073709551616").is_none());
}

#[test]
fn numbers_outside_the_unsigned_subset_are_rejected() {
    assert!(parse_text("-1").is_none());
    assert!(parse_text("1.5").is_none());
    assert!(parse_text("1e3").is_none());
}

#[test]
fn string_escapes_are_decoded() {
    assert!(matches!(
        parses("\"a\\\"b\\\\c\\/d\\ne\\tf\\rg\\bh\\fi\""),
        Json::Str(s) if s == "a\"b\\c/d\ne\tf\rg\u{8}h\u{c}i"
    ));
}

#[test]
fn unicode_escape_is_outside_the_subset() {
    assert!(parse_text("\"a\\u0041\"").is_none());
}

#[test]
fn raw_non_ascii_characters_pass_through() {
    let doc = parses("\"caf\u{e9} \u{1f44b}\"");
    assert!(matches!(doc, Json::Str(s) if s == "caf\u{e9} \u{1f44b}"));
}

#[test]
fn whitespace_between_tokens_is_skipped() {
    let doc = parses(" {\n \"a\" :\t[ 1 , 2 ] ,\r\"b\" : { } } ");
    assert_eq!(to_text(&doc), "{\"a\":[1,2],\"b\":{}}");
}

#[test]
fn trailing_garbage_is_rejected() {
    assert!(parse_text("1 2").is_none());
    assert!(parse_text("{} x").is_none());
}

#[test]
fn unterminated_values_are_rejected() {
    assert!(parse_text("\"abc").is_none());
    assert!(parse_text("[1,").is_none());
    assert!(parse_text("{\"a\":").is_none());
    assert!(parse_text("{\"a\" 1}").is_none());
    assert!(parse_text("tru").is_none());
}

#[test]
fn empty_containers_parse() {
    assert_eq!(to_text(&parses("[]")), "[]");
    assert_eq!(to_text(&parses("{}")), "{}");
    assert_eq!(to_text(&parses("[ ]")), "[]");
    assert_eq!(to_text(&parses("{ }")), "{}");
}

#[test]
fn printer_escapes_quotes_and_backslashes() {
    let doc = Json::Str(String::from("a\"b\\c"));
    assert_eq!(to_text(&doc), "\"a\\\"b\\\\c\"");
}

#[test]
fn printed_documents_parse_back() {
    let text = "{\"a\":[1,\"x\",{\"b\":[true,null]}],\"c\":\"q\\\"z\"}";
    let doc = parses(text);
    let printed = to_text(&doc);
    assert_eq!(printed, text);
    let again = to_text(&parses(&printed));
    assert_eq!(again, printed);
}

fn matches_serde(j: &Json, v: &serde_json::Value) -> bool {
    match j {
        Json::Null => v.is_null(),
        Json::Bool(b) => v.as_bool() == Some(*b),
        Json::UInt(n) => v.as_u64() == Some(*n),
        Json::Str(s) => v.as_str() == Some(s.as_str()),
        Json::Arr(items) => match v.as_array() {
            None => false,
            Some(arr) => {
                items.len() == arr.len()
                    && items.iter().zip(arr.iter()).all(|(a, b)| matches_serde(a, b))
            },
        },
        Json::Obj(fields) => match v.as_object() {
            None => false,
            Some(map) => {
                fields.len() == map.len()
                    && fields.iter().all(|(k, fv)| match map.get(k) {
                        None => false,
                        Some(sv) => matches_serde(fv, sv),
                    })
            },
        },
    }
}

#[test]
fn parser_agrees_with_serde_json_on_the_subset() {
    let texts = [
        "{\"token\":\"T\",\"challenge\":\"abc123\",\"type\":\"url_verification\"}",
        "{\"a\":[1,2,3],\"b\":{\"c\":true,\"d\":null},\"e\":\"x\\ny\"}",
        "[{\"k\":\"v\"},[],{},0,18446744073709551615]",
    ];
    for text in texts {
        let ours = parses(text);
        let theirs: serde_json::Value = serde_json::from_str(text).expect("serde parses");
        assert!(matches_serde(&ours, &theirs));
    }
}
