use snippet_engine::datetime::CivilDateTime;
use snippet_engine::engine::{ExpansionEngine, InputEvent, plan_expansion};
use snippet_engine::resolve::{parse_and_resolve_placeholders, ResolveEnv, ResolvedSnippet};
use snippet_engine::snippet::Snippet;

fn snippet(id: i64, name: &str, keyword: &str, content: &str) -> Snippet {
    Snippet {
        id,
        name: name.to_string(),
        keyword: keyword.to_string(),
        content: content.to_string(),
        created_at: 0,
        updated_at: 0,
        times_used: 0,
        last_used_at: 0,
    }
}

fn type_text(engine: &mut ExpansionEngine, text: &str, snippets: &Vec<Snippet>) -> Vec<usize> {
    let mut hits = Vec::new();
    for c in text.chars() {
        if let Some(i) = engine.handle_key_press(InputEvent::KeyPress(c), snippets) {
            hits.push(i);
        }
    }
    hits
}

fn buffer_string(engine: &ExpansionEngine) -> String {
    engine.buffer_contents().into_iter().collect()
}

#[test]
fn buffer_keeps_last_thirty_characters() {
    let snippets = Vec::new();
    let mut engine = ExpansionEngine::new();
    let typed: String = (0..40).map(|i| (b'a' + (i % 26) as u8) as char).collect();
    let hits = type_text(&mut engine, &typed, &snippets);
    assert!(hits.is_empty());
    let expected: String = typed.chars().skip(10).collect();
    assert_eq!(buffer_string(&engine), expected);
    assert_eq!(engine.buffer_contents().len(), 30);
}

#[test]
fn buffer_shorter_than_capacity_holds_everything() {
    let snippets = Vec::new();
    let mut engine = ExpansionEngine::new();
    type_text(&mut engine, "hello", &snippets);
    assert_eq!(buffer_string(&engine), "hello");
}

#[test]
fn backspace_pops_and_is_no_op_when_empty() {
    let snippets = Vec::new();
    let mut engine = ExpansionEngine::new();
    engine.handle_key_press(InputEvent::KeyPress('\u{8}'), &snippets);
    assert_eq!(buffer_string(&engine), "");
    type_text(&mut engine, "ab", &snippets);
    engine.handle_key_press(InputEvent::KeyPress('\u{8}'), &snippets);
    assert_eq!(buffer_string(&engine), "a");
}

#[test]
fn control_keys_clear_the_buffer() {
    let snippets = Vec::new();
    for reset in ['\n', '\t', '\u{1b}'] {
        let mut engine = ExpansionEngine::new();
        type_text(&mut engine, "abc", &snippets);
        engine.handle_key_press(InputEvent::KeyPress(reset), &snippets);
        assert_eq!(buffer_string(&engine), "");
    }
}

#[test]
fn other_control_characters_are_ignored() {
    let snippets = Vec::new();
    let mut engine = ExpansionEngine::new();
    type_text(&mut engine, "ab", &snippets);
    engine.handle_key_press(InputEvent::KeyPress('\u{1}'), &snippets);
    assert_eq!(buffer_string(&engine), "ab");
}

#[test]
fn typing_a_keyword_triggers_exactly_once_and_clears() {
    let snippets = vec![snippet(1, "sig", ";sig", "best, me")];
    let mut engine = ExpansionEngine::new();
    let hits = type_text(&mut engine, "hello ;sig", &snippets);
    assert_eq!(hits, vec![0]);
    assert_eq!(buffer_string(&engine), "");
}

#[test]
fn first_snippet_in_store_order_wins() {
    let snippets = vec![snippet(1, "a", "sig", "first"), snippet(2, "b", ";sig", "second")];
    let mut engine = ExpansionEngine::new();
    let hits = type_text(&mut engine, ";sig", &snippets);
    assert_eq!(hits, vec![0]);
}

#[test]
fn keyword_longer_than_capacity_never_triggers() {
    let long: String = "x".repeat(31);
    let snippets = vec![snippet(1, "long", &long, "nope")];
    let mut engine = ExpansionEngine::new();
    let hits = type_text(&mut engine, &long, &snippets);
    assert!(hits.is_empty());
}

#[test]
fn control_reset_prevents_a_trigger() {
    let snippets = vec![snippet(1, "sig", ";sig", "text")];
    let mut engine = ExpansionEngine::new();
    let mut hits = type_text(&mut engine, ";si", &snippets);
    engine.handle_key_press(InputEvent::KeyPress('\n'), &snippets);
    hits.extend(type_text(&mut engine, "g", &snippets));
    assert!(hits.is_empty());
}

#[test]
fn plan_counts_keyword_characters_not_bytes() {
    let resolved = ResolvedSnippet { content: "out".to_string(), cursor_pos: None };
    let plan = plan_expansion("\u{e9}\u{e9}", resolved);
    assert_eq!(plan.backspace_count, 2);
    assert_eq!(plan.text, "out");
    assert_eq!(plan.chars_to_move_left, 0);
}

#[test]
fn plan_moves_cursor_back_from_the_end() {
    let resolved = ResolvedSnippet { content: "foobar".to_string(), cursor_pos: Some(3) };
    let plan = plan_expansion("kw", resolved);
    assert_eq!(plan.chars_to_move_left, 3);
}

#[test]
fn typed_trigger_resolves_and_plans_the_whole_expansion() {
    let snippets = vec![snippet(7, "greeting", ";hi", "Hello {clipboard}{cursor}!")];
    let mut engine = ExpansionEngine::new();
    let hits = type_text(&mut engine, "mail: ;hi", &snippets);
    assert_eq!(hits, vec![0]);
    assert_eq!(buffer_string(&engine), "");

    let env = ResolveEnv {
        clipboard_text: Some("world".to_string()),
        clipboard_history: Vec::new(),
        snippets: snippets.clone(),
        uuids: Vec::new(),
        now: CivilDateTime { year: 2024, month: 1, day: 15, hour: 9, minute: 0, second: 0, tz_min: 0 },
    };
    let resolved = parse_and_resolve_placeholders(&snippets[hits[0]].content, &env);
    assert_eq!(resolved.content, "Hello world!");
    assert_eq!(resolved.cursor_pos, Some(11));

    let plan = plan_expansion(&snippets[hits[0]].keyword, resolved);
    assert_eq!(plan.backspace_count, 3);
    assert_eq!(plan.text, "Hello world!");
    assert_eq!(plan.chars_to_move_left, 1);
}
