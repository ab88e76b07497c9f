use snippet_engine::datetime::{CivilDateTime, translate_date_format, parse_offset, DeltaUnit};
use snippet_engine::resolve::{ResolveEnv, parse_and_resolve_placeholders};

fn env_at(dt: CivilDateTime) -> ResolveEnv {
    ResolveEnv {
        clipboard_text: None,
        clipboard_history: Vec::new(),
        snippets: Vec::new(),
        uuids: Vec::new(),
        now: dt,
    }
}

fn jan_15_2024(hour: u8, minute: u8) -> CivilDateTime {
    CivilDateTime { year: 2024, month: 1, day: 15, hour, minute, second: 0, tz_min: 0 }
}

#[test]
fn format_translation_maps_letter_runs() {
    assert_eq!(translate_date_format("yyyy-MM-dd"), "%Y-%m-%d");
    assert_eq!(translate_date_format("d MMM yyyy"), "%-d %b %Y");
    assert_eq!(translate_date_format("h:mm a"), "%-I:%M %p");
    assert_eq!(translate_date_format("EEEE"), "%A");
    assert_eq!(translate_date_format("HH:mm:ss"), "%H:%M:%S");
}

#[test]
fn format_translation_quotes_literal_text() {
    assert_eq!(translate_date_format("d MMM yyyy 'at' h:mm a"), "%-d %b %Y at %-I:%M %p");
    assert_eq!(translate_date_format("'year' yyyy"), "year %Y");
}

#[test]
fn format_translation_passes_unknown_runs_through() {
    assert_eq!(translate_date_format("yyyy/QQ"), "%Y/QQ");
    assert_eq!(translate_date_format("100%"), "100%%");
}

#[test]
fn offset_attribute_parses_signed_deltas() {
    let ds = parse_offset("+1d-2h");
    assert_eq!(ds.len(), 2);
    assert_eq!(ds[0].unit, DeltaUnit::Days);
    assert_eq!(ds[0].amount, 1);
    assert_eq!(ds[1].unit, DeltaUnit::Hours);
    assert_eq!(ds[1].amount, -2);
}

#[test]
fn offset_attribute_skips_junk() {
    let ds = parse_offset("x+3Mzz-10m");
    assert_eq!(ds.len(), 2);
    assert_eq!(ds[0].unit, DeltaUnit::Months);
    assert_eq!(ds[0].amount, 3);
    assert_eq!(ds[1].unit, DeltaUnit::Minutes);
    assert_eq!(ds[1].amount, -10);
}

#[test]
fn date_placeholder_shifts_one_day() {
    let e = env_at(jan_15_2024(0, 0));
    let r = parse_and_resolve_placeholders("{date offset=\"+1d\" format=\"yyyy-MM-dd\"}", &e);
    assert_eq!(r.content, "2024-01-16");
}

#[test]
fn date_placeholder_default_pattern() {
    let e = env_at(jan_15_2024(0, 0));
    let r = parse_and_resolve_placeholders("{date}", &e);
    assert_eq!(r.content, "15 Jan 2024");
}

#[test]
fn month_shift_clamps_to_the_last_day() {
    let e = env_at(CivilDateTime {
        year: 2024,
        month: 1,
        day: 31,
        hour: 0,
        minute: 0,
        second: 0,
        tz_min: 0,
    });
    let r = parse_and_resolve_placeholders("{date offset=\"+1M\" format=\"yyyy-MM-dd\"}", &e);
    assert_eq!(r.content, "2024-02-29");
}

#[test]
fn year_shift_moves_whole_years() {
    let e = env_at(jan_15_2024(0, 0));
    let r = parse_and_resolve_placeholders("{date offset=\"-1y\" format=\"yyyy-MM-dd\"}", &e);
    assert_eq!(r.content, "2023-01-15");
}

#[test]
fn hour_shift_crosses_midnight() {
    let e = env_at(jan_15_2024(23, 0));
    let r = parse_and_resolve_placeholders(
        "{datetime offset=\"+2h\" format=\"yyyy-MM-dd HH:mm\"}",
        &e,
    );
    assert_eq!(r.content, "2024-01-16 01:00");
}

#[test]
fn day_placeholder_names_the_weekday() {
    let e = env_at(jan_15_2024(0, 0));
    let r = parse_and_resolve_placeholders("{day}", &e);
    assert_eq!(r.content, "Monday");
}

#[test]
fn time_placeholder_upper_cases_the_meridiem() {
    let e = env_at(jan_15_2024(13, 5));
    let r = parse_and_resolve_placeholders("{time}", &e);
    assert_eq!(r.content, "1:05 PM");
}
