use snippet_engine::datetime::CivilDateTime;
use snippet_engine::modifiers::{apply_modifier, apply_modifiers};
use snippet_engine::resolve::{ResolveEnv, parse_and_resolve_placeholders};

fn env_with_clipboard(text: &str) -> ResolveEnv {
    ResolveEnv {
        clipboard_text: Some(text.to_string()),
        clipboard_history: Vec::new(),
        snippets: Vec::new(),
        uuids: Vec::new(),
        now: CivilDateTime { year: 2024, month: 1, day: 15, hour: 9, minute: 0, second: 0, tz_min: 0 },
    }
}

#[test]
fn uppercase_and_lowercase_fold_ascii() {
    assert_eq!(apply_modifier("MiXed 123".to_string(), &"uppercase".to_string()), "MIXED 123");
    assert_eq!(apply_modifier("MiXed 123".to_string(), &"lowercase".to_string()), "mixed 123");
}

#[test]
fn uppercase_twice_equals_uppercase_once() {
    let once = apply_modifier("some Value".to_string(), &"uppercase".to_string());
    let twice = apply_modifier(once.clone(), &"uppercase".to_string());
    assert_eq!(twice, once);
}

#[test]
fn trim_removes_surrounding_whitespace_only() {
    assert_eq!(apply_modifier("  a b \t".to_string(), &"trim".to_string()), "a b");
}

#[test]
fn percent_encode_escapes_the_unsafe_set() {
    assert_eq!(
        apply_modifier("a b\"<>`".to_string(), &"percent-encode".to_string()),
        "a%20b%22%3C%3E%60"
    );
}

#[test]
fn percent_encode_escapes_non_ascii_bytes() {
    assert_eq!(apply_modifier("\u{e9}".to_string(), &"percent-encode".to_string()), "%C3%A9");
}

#[test]
fn json_stringify_quotes_and_escapes() {
    assert_eq!(apply_modifier("a".to_string(), &"json-stringify".to_string()), "\"a\"");
    assert_eq!(
        apply_modifier("he said \"hi\"\n".to_string(), &"json-stringify".to_string()),
        "\"he said \\\"hi\\\"\\n\""
    );
}

#[test]
fn unknown_modifier_is_a_no_op() {
    assert_eq!(apply_modifier("keep".to_string(), &"sparkle".to_string()), "keep");
}

#[test]
fn modifier_chain_applies_in_declared_order() {
    let mods = vec!["trim".to_string(), "uppercase".to_string()];
    assert_eq!(apply_modifiers("  ab  ".to_string(), &mods), "AB");
}

#[test]
fn modifiers_apply_to_the_placeholder_value_only() {
    let e = env_with_clipboard("hi there");
    let r = parse_and_resolve_placeholders("keep {clipboard | uppercase} keep", &e);
    assert_eq!(r.content, "keep HI THERE keep");
}

#[test]
fn piped_modifiers_parse_inside_a_placeholder() {
    let e = env_with_clipboard("  pad  ");
    let r = parse_and_resolve_placeholders("<{clipboard|trim|uppercase}>", &e);
    assert_eq!(r.content, "<PAD>");
}
