use fetch_client::quote_json;

#[test]
fn quotes_plain_text() {
    assert_eq!(quote_json("hello"), "\"hello\"");
}

#[test]
fn quotes_empty_text() {
    assert_eq!(quote_json(""), "\"\"");
}

#[test]
fn escapes_quotation_mark_and_reverse_solidus() {
    assert_eq!(quote_json("say \"hi\""), "\"say \\\"hi\\\"\"");
    assert_eq!(quote_json("a\\b"), "\"a\\\\b\"");
}

#[test]
fn escapes_short_control_forms() {
    assert_eq!(quote_json("\u{8}"), "\"\\b\"");
    assert_eq!(quote_json("\t"), "\"\\t\"");
    assert_eq!(quote_json("\n"), "\"\\n\"");
    assert_eq!(quote_json("\u{c}"), "\"\\f\"");
    assert_eq!(quote_json("\r"), "\"\\r\"");
}

#[test]
fn escapes_other_control_characters_as_hex() {
    assert_eq!(quote_json("\u{0}"), "\"\\u0000\"");
    assert_eq!(quote_json("\u{1}"), "\"\\u0001\"");
    assert_eq!(quote_json("\u{b}"), "\"\\u000b\"");
    assert_eq!(quote_json("\u{e}"), "\"\\u000e\"");
    assert_eq!(quote_json("\u{10}"), "\"\\u0010\"");
    assert_eq!(quote_json("\u{1a}"), "\"\\u001a\"");
    assert_eq!(quote_json("\u{1f}"), "\"\\u001f\"");
}

#[test]
fn leaves_other_characters_alone() {
    assert_eq!(quote_json(" "), "\" \"");
    assert_eq!(quote_json("/"), "\"/\"");
    assert_eq!(quote_json("\u{7f}"), "\"\u{7f}\"");
    assert_eq!(quote_json("gr\u{fc}\u{df}e \u{2028} \u{1f600}"), "\"gr\u{fc}\u{df}e \u{2028} \u{1f600}\"");
}

#[test]
fn quotes_a_json_document_as_text() {
    assert_eq!(quote_json("{\"a\":[1,2]}\n"), "\"{\\\"a\\\":[1,2]}\\n\"");
}
