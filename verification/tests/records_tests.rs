use snippet_engine::records::{App, AppCache, AppError, ContentType, DirStamp};
use snippet_engine::snippet::{ImportEntry, plan_import};
use snippet_engine::template::{parse_attributes, parse_modifiers};

fn stamp(path: &str, modified: i64) -> DirStamp {
    DirStamp { path: path.to_string(), modified }
}

#[test]
fn app_builders_fill_the_record() {
    let app = App::new("Files".to_string())
        .with_comment(Some("browse".to_string()))
        .with_exec(Some("files %U".to_string()))
        .with_icon_path(Some("/icons/files.png".to_string()));
    assert_eq!(app.name, "Files");
    assert_eq!(app.comment.as_deref(), Some("browse"));
    assert_eq!(app.exec_command.as_deref(), Some("files %U"));
    assert_eq!(app.icon_path.as_deref(), Some("/icons/files.png"));
}

#[test]
fn cache_is_fresh_when_stamps_match() {
    let cache = AppCache::new(Vec::new(), vec![stamp("/usr/share/applications", 100)]);
    let current = vec![stamp("/usr/share/applications", 100)];
    assert!(!cache.is_stale(&current, &Vec::new()));
}

#[test]
fn cache_goes_stale_on_newer_unknown_or_missing_directories() {
    let cache = AppCache::new(Vec::new(), vec![stamp("/apps", 100)]);
    assert!(cache.is_stale(&vec![stamp("/apps", 101)], &Vec::new()));
    assert!(cache.is_stale(&vec![stamp("/other", 50)], &Vec::new()));
    assert!(cache.is_stale(&Vec::new(), &vec!["/apps".to_string()]));
    assert!(!cache.is_stale(&vec![stamp("/apps", 99)], &Vec::new()));
}

#[test]
fn content_type_tags_round_trip() {
    for (tag, ty) in [
        ("text", ContentType::Text),
        ("image", ContentType::Image),
        ("color", ContentType::Color),
        ("link", ContentType::Link),
        ("file", ContentType::File),
    ] {
        let parsed = ContentType::from_str(tag).unwrap();
        assert_eq!(parsed, ty);
        assert_eq!(parsed.as_str(), tag);
    }
}

#[test]
fn unknown_content_type_tag_is_an_error() {
    assert!(ContentType::from_str("video").is_err());
}

#[test]
fn import_counts_additions_and_duplicates() {
    let entries = vec![
        ImportEntry { name: "a".to_string(), text: "A".to_string(), keyword: ";a".to_string() },
        ImportEntry { name: "b".to_string(), text: "B".to_string(), keyword: ";b".to_string() },
        ImportEntry { name: "c".to_string(), text: "C".to_string(), keyword: ";a".to_string() },
        ImportEntry { name: "d".to_string(), text: "D".to_string(), keyword: ";old".to_string() },
    ];
    let existing = vec![";old".to_string()];
    let r = plan_import(&entries, &existing);
    assert_eq!(r.snippets_added, 2);
    assert_eq!(r.duplicates_skipped, 2);
}

#[test]
fn attribute_text_parses_in_order() {
    let attrs = parse_attributes(" offset=\"+1d\" format=yyyy");
    assert_eq!(attrs.len(), 2);
    assert_eq!(attrs[0].key, "offset");
    assert_eq!(attrs[0].value, "+1d");
    assert_eq!(attrs[1].key, "format");
    assert_eq!(attrs[1].value, "yyyy");
}

#[test]
fn modifier_text_splits_trims_and_drops_empties() {
    let mods = parse_modifiers(" | uppercase |  trim ");
    assert_eq!(mods, vec!["uppercase".to_string(), "trim".to_string()]);
    assert!(parse_modifiers(" | ").is_empty());
}

#[test]
fn error_messages_describe_each_variant() {
    assert_eq!(AppError::ClipboardHistory("bad row".to_string()).message(), "bad row");
    assert_eq!(AppError::DirectoryNotFound.message(), "directory not found");
    assert_eq!(AppError::CaptureUnavailable("no devices".to_string()).message(), "no devices");
}
