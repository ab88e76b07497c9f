use snippet_engine::datetime::CivilDateTime;
use snippet_engine::engine::plan_expansion;
use snippet_engine::resolve::{
    ResolveEnv, parse_and_resolve_placeholders, resolve_or_raw, count_uuid_placeholders,
    make_uuids,
};
use snippet_engine::snippet::Snippet;

fn fixed_now() -> CivilDateTime {
    CivilDateTime { year: 2024, month: 1, day: 15, hour: 9, minute: 30, second: 0, tz_min: 0 }
}

fn env() -> ResolveEnv {
    ResolveEnv {
        clipboard_text: None,
        clipboard_history: Vec::new(),
        snippets: Vec::new(),
        uuids: Vec::new(),
        now: fixed_now(),
    }
}

fn named(name: &str, content: &str) -> Snippet {
    Snippet {
        id: 1,
        name: name.to_string(),
        keyword: format!(";{}", name),
        content: content.to_string(),
        created_at: 0,
        updated_at: 0,
        times_used: 0,
        last_used_at: 0,
    }
}

#[test]
fn plain_text_round_trips_unchanged() {
    let r = parse_and_resolve_placeholders("no placeholders here", &env());
    assert_eq!(r.content, "no placeholders here");
    assert_eq!(r.cursor_pos, None);
}

#[test]
fn malformed_placeholders_stay_literal() {
    let r = parse_and_resolve_placeholders("a {not closed and {} empty", &env());
    assert_eq!(r.content, "a {not closed and {} empty");
    assert_eq!(r.cursor_pos, None);
}

#[test]
fn clipboard_placeholder_reads_the_clipboard() {
    let mut e = env();
    e.clipboard_text = Some("hello".to_string());
    let r = parse_and_resolve_placeholders("{clipboard}", &e);
    assert_eq!(r.content, "hello");
}

#[test]
fn clipboard_placeholder_empty_without_text() {
    let r = parse_and_resolve_placeholders("<{clipboard}>", &env());
    assert_eq!(r.content, "<>");
}

#[test]
fn clipboard_offset_reads_history() {
    let mut e = env();
    e.clipboard_text = Some("current".to_string());
    e.clipboard_history = vec!["prev1".to_string(), "prev2".to_string()];
    let r = parse_and_resolve_placeholders("{clipboard offset=1}|{clipboard offset=2}", &e);
    assert_eq!(r.content, "prev1|prev2");
}

#[test]
fn clipboard_offset_out_of_range_is_empty() {
    let mut e = env();
    e.clipboard_history = vec!["prev1".to_string()];
    let r = parse_and_resolve_placeholders("{clipboard offset=9}", &e);
    assert_eq!(r.content, "");
}

#[test]
fn unreadable_offset_falls_back_to_the_clipboard() {
    let mut e = env();
    e.clipboard_text = Some("current".to_string());
    e.clipboard_history = vec!["prev1".to_string()];
    let r = parse_and_resolve_placeholders("{clipboard offset=abc}", &e);
    assert_eq!(r.content, "current");
}

#[test]
fn cursor_marker_is_removed_and_recorded() {
    let r = parse_and_resolve_placeholders("foo{cursor}bar", &env());
    assert_eq!(r.content, "foobar");
    assert_eq!(r.cursor_pos, Some(3));
    let plan = plan_expansion("kw", r);
    assert_eq!(plan.chars_to_move_left, 3);
}

#[test]
fn only_the_first_cursor_marker_counts() {
    let r = parse_and_resolve_placeholders("a{cursor}b{cursor}c", &env());
    assert_eq!(r.content, "abc");
    assert_eq!(r.cursor_pos, Some(1));
}

#[test]
fn nested_snippet_substitutes_literal_content() {
    let mut e = env();
    e.snippets = vec![named("other", "plain text")];
    let r = parse_and_resolve_placeholders("<{snippet name=\"other\"}>", &e);
    assert_eq!(r.content, "<plain text>");
}

#[test]
fn nested_snippet_with_placeholder_is_refused() {
    let mut e = env();
    e.snippets = vec![named("other", "has {clipboard} inside")];
    let r = parse_and_resolve_placeholders("<{snippet name=\"other\"}>", &e);
    assert_eq!(r.content, "<>");
}

#[test]
fn unknown_snippet_name_is_empty() {
    let r = parse_and_resolve_placeholders("<{snippet name=\"missing\"}>", &env());
    assert_eq!(r.content, "<>");
}

#[test]
fn unknown_placeholder_is_dropped() {
    let r = parse_and_resolve_placeholders("a{bogus attr=1}b", &env());
    assert_eq!(r.content, "ab");
}

#[test]
fn uuid_placeholders_consume_fresh_identifiers_upper_cased() {
    let mut e = env();
    e.uuids = vec!["aa-bb".to_string(), "cc-dd".to_string()];
    let r = parse_and_resolve_placeholders("{uuid}/{uuid}", &e);
    assert_eq!(r.content, "AA-BB/CC-DD");
}

#[test]
fn uuid_without_identifiers_is_empty() {
    let r = parse_and_resolve_placeholders("<{uuid}>", &env());
    assert_eq!(r.content, "<>");
}

#[test]
fn uuid_counting_and_generation() {
    assert_eq!(count_uuid_placeholders("{uuid} and {uuid} but not {date}"), 2);
    let ids = make_uuids(2);
    assert_eq!(ids.len(), 2);
    for id in &ids {
        assert_eq!(id.chars().count(), 36);
    }
    assert_ne!(ids[0], ids[1]);
}

#[test]
fn resolve_or_raw_falls_back_to_raw_content() {
    let r = resolve_or_raw("keep {clipboard} as is", None);
    assert_eq!(r.content, "keep {clipboard} as is");
    assert_eq!(r.cursor_pos, None);
}

#[test]
fn last_attribute_occurrence_wins() {
    let mut e = env();
    e.clipboard_history = vec!["prev1".to_string(), "prev2".to_string()];
    let r = parse_and_resolve_placeholders("{clipboard offset=1 offset=2}", &e);
    assert_eq!(r.content, "prev2");
}
