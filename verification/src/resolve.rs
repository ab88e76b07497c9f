//! Resolution of placeholders in snippet content.
//!
//! [`parse_and_resolve_placeholders`] scans the raw content left to right,
//! passes literal text through, and replaces each well-formed placeholder
//! by its value with the modifier chain applied. Values come from a
//! [`ResolveEnv`] of plain data: the system clipboard text, previous
//! clipboard-history entries, the store's snippets, pre-generated fresh
//! identifiers and the current local time.
//!
//! Placeholders: `cursor` (empty, records the first occurrence's output
//! offset), `uuid` (a fresh identifier, upper-cased), `clipboard` (the
//! clipboard, or with `offset=N` the Nth-previous history entry), `snippet
//! name="X"` (another snippet's literal content, refused if it itself
//! contains a placeholder), `date`/`time`/`datetime`/`day` (the current
//! time, shifted and formatted), and anything else resolves to empty.

use vstd::prelude::*;
use crate::chars::{ascii_upper, str_to_chars, chars_to_string, string_eq_lit};
use crate::template::{
    Attribute, ParsedPlaceholder, PlaceholderView, placeholder_parse, placeholder_at,
    has_placeholder, contains_placeholder,
};
use crate::modifiers::{apply_modifiers, apply_modifiers_spec};
use crate::datetime::{
    CivilDateTime, valid_civil, date_value_spec, date_placeholder_value, is_digit, digits_value,
};
use crate::snippet::{Snippet, SnippetView};

verus! {

broadcast use vstd::string::group_string_axioms;

/// The plain values placeholder resolution draws from.
pub struct ResolveEnv {
    /// The system clipboard's current text, if it has one.
    pub clipboard_text: Option<String>,
    /// Previous clipboard entries, most recent first: `offset=N` reads
    /// entry `N - 1`.
    pub clipboard_history: Vec<String>,
    /// The store's snippets, in store order.
    pub snippets: Vec<Snippet>,
    /// Fresh identifiers, consumed in order by `uuid` placeholders.
    pub uuids: Vec<String>,
    /// The current local time.
    pub now: CivilDateTime,
}

/// The mathematical shape of a resolution environment.
pub struct EnvView {
    pub clipboard_text: Option<Seq<char>>,
    pub history: Seq<Seq<char>>,
    pub snippets: Seq<SnippetView>,
    pub uuids: Seq<Seq<char>>,
    pub now: CivilDateTime,
}

impl View for ResolveEnv {
    type V = EnvView;

    open spec fn view(&self) -> EnvView {
        EnvView {
            clipboard_text: match self.clipboard_text {
                Some(t) => Some(t@),
                None => None,
            },
            history: self.clipboard_history@.map_values(|s: String| s@),
            snippets: self.snippets@.map_values(|s: Snippet| s@),
            uuids: self.uuids@.map_values(|s: String| s@),
            now: self.now,
        }
    }
}

/// Fully substituted snippet content, and the character offset where the
/// cursor should land if the content held a cursor marker.
pub struct ResolvedSnippet {
    pub content: String,
    pub cursor_pos: Option<usize>,
}

/// The value of `key` among parsed attributes; written later wins.
pub open spec fn attr_lookup(attrs: Seq<(Seq<char>, Seq<char>)>, key: Seq<char>) -> Option<
    Seq<char>,
>
    decreases attrs.len(),
{
    if attrs.len() == 0 {
        None
    } else if attrs.last().0 == key {
        Some(attrs.last().1)
    } else {
        attr_lookup(attrs.drop_last(), key)
    }
}

/// Every character is a decimal digit.
pub open spec fn all_digits(s: Seq<char>) -> bool {
    forall|k: int| 0 <= k < s.len() ==> is_digit(s[k])
}

/// The value of a decimal string as `u32` parsing reads it: an optional
/// leading `+`, then only digits, and a value that fits.
pub open spec fn parse_u32_spec(s: Seq<char>) -> Option<int> {
    let body = if s.len() >= 1 && s[0] == '+' {
        s.skip(1)
    } else {
        s
    };
    if body.len() >= 1 && all_digits(body) && digits_value(body) <= 0xffff_ffff {
        Some(digits_value(body))
    } else {
        None
    }
}

/// The clipboard offset named by a placeholder: its `offset` attribute as
/// a number, or zero when absent or unreadable.
pub open spec fn clip_offset_of(ph: PlaceholderView) -> int {
    match attr_lookup(ph.attrs, "offset"@) {
        Some(o) => match parse_u32_spec(o) {
            Some(v) => v,
            None => 0,
        },
        None => 0,
    }
}

/// The content of the first snippet with the given name, in store order.
pub open spec fn find_named(ss: Seq<SnippetView>, nm: Seq<char>) -> Option<Seq<char>>
    decreases ss.len(),
{
    if ss.len() == 0 {
        None
    } else if ss.first().name == nm {
        Some(ss.first().content)
    } else {
        find_named(ss.drop_first(), nm)
    }
}

/// The raw value of a placeholder, before modifiers.
pub open spec fn ph_value(ph: PlaceholderView, env: EnvView) -> Seq<char> {
    if ph.name == "uuid"@ {
        if env.uuids.len() > 0 {
            env.uuids.first().map_values(|c: char| ascii_upper(c))
        } else {
            Seq::empty()
        }
    } else if ph.name == "clipboard"@ {
        let off = clip_offset_of(ph);
        if off > 0 {
            if off - 1 < env.history.len() {
                env.history[off - 1]
            } else {
                Seq::empty()
            }
        } else {
            match env.clipboard_text {
                Some(t) => t,
                None => Seq::empty(),
            }
        }
    } else if ph.name == "snippet"@ {
        match attr_lookup(ph.attrs, "name"@) {
            Some(nm) => match find_named(env.snippets, nm) {
                Some(content) => {
                    if has_placeholder(content) {
                        Seq::empty()
                    } else {
                        content
                    }
                },
                None => Seq::empty(),
            },
            None => Seq::empty(),
        }
    } else if ph.name == "date"@ || ph.name == "time"@ || ph.name == "datetime"@ || ph.name
        == "day"@ {
        date_value_spec(
            ph.name,
            attr_lookup(ph.attrs, "offset"@),
            attr_lookup(ph.attrs, "format"@),
            env.now,
        )
    } else {
        Seq::empty()
    }
}

/// A placeholder's contribution to the output: its value with the modifier
/// chain applied.
pub open spec fn ph_output(ph: PlaceholderView, env: EnvView) -> Seq<char> {
    apply_modifiers_spec(ph_value(ph, env), ph.mods)
}

/// The environment after a placeholder: a `uuid` placeholder consumes one
/// fresh identifier.
pub open spec fn env_after(ph: PlaceholderView, env: EnvView) -> EnvView {
    if ph.name == "uuid"@ && env.uuids.len() > 0 {
        EnvView {
            clipboard_text: env.clipboard_text,
            history: env.history,
            snippets: env.snippets,
            uuids: env.uuids.drop_first(),
            now: env.now,
        }
    } else {
        env
    }
}

/// The resolution of the content from `i` on: the produced text, and the
/// offset within it of the first cursor marker, if any.
pub open spec fn resolve_from(s: Seq<char>, i: int, env: EnvView) -> (Seq<char>, Option<int>)
    decreases s.len() - i,
{
    if !(0 <= i < s.len()) {
        (Seq::empty(), None::<int>)
    } else {
        match placeholder_parse(s, i) {
            Some((ph, end)) => {
                if i < end <= s.len() {
                    let rest = resolve_from(s, end, env_after(ph, env));
                    if ph.name == "cursor"@ {
                        (rest.0, Some(0int))
                    } else {
                        let head = ph_output(ph, env);
                        (
                            head + rest.0,
                            match rest.1 {
                                Some(k) => Some(head.len() + k),
                                None => None::<int>,
                            },
                        )
                    }
                } else {
                    (Seq::empty(), None::<int>)
                }
            },
            None => {
                let rest = resolve_from(s, i + 1, env);
                (
                    seq![s[i]] + rest.0,
                    match rest.1 {
                        Some(k) => Some(1 + k),
                        None => None::<int>,
                    },
                )
            },
        }
    }
}

/// The resolution of a whole content against an environment.
pub open spec fn resolve_spec(s: Seq<char>, env: EnvView) -> (Seq<char>, Option<int>) {
    resolve_from(s, 0, env)
}

/// How many `uuid` placeholders the content holds from `i` on.
pub open spec fn uuid_count_from(s: Seq<char>, i: int) -> int
    decreases s.len() - i,
{
    if !(0 <= i < s.len()) {
        0
    } else {
        match placeholder_parse(s, i) {
            Some((ph, end)) => {
                if i < end <= s.len() {
                    (if ph.name == "uuid"@ {
                        1int
                    } else {
                        0int
                    }) + uuid_count_from(s, end)
                } else {
                    0
                }
            },
            None => uuid_count_from(s, i + 1),
        }
    }
}

/// The value of `key` among the parsed attributes, per [`attr_lookup`].
fn attr_get(attrs: &Vec<Attribute>, key: &str) -> (r: Option<String>)
    ensures
        ({
            let la = attr_lookup(attrs@.map_values(|a: Attribute| a@), key@);
            match r {
                Some(v) => la == Some(v@),
                None => la is None,
            }
        }),
{
    let ghost av = attrs@.map_values(|a: Attribute| a@);
    let mut out: Option<String> = None;
    let mut i: usize = 0;
    while i < attrs.len()
        invariant
            i <= attrs@.len(),
            av == attrs@.map_values(|a: Attribute| a@),
            ({
                let la = attr_lookup(av.take(i as int), key@);
                match out {
                    Some(v) => la == Some(v@),
                    None => la is None,
                }
            }),
        decreases attrs@.len() - i,
    {
        proof {
            assert(av.take(i as int + 1).drop_last() =~= av.take(i as int));
            assert(av.take(i as int + 1).last() == av[i as int]);
        }
        if string_eq_lit(&attrs[i].key, key) {
            out = Some(attrs[i].value.clone());
        }
        i += 1;
    }
    proof {
        assert(av.take(attrs@.len() as int) =~= av);
    }
    out
}

/// The attribute text as a number, or zero when it cannot be read, per
/// [`parse_u32_spec`].
fn parse_u32_or_zero(s: &String) -> (r: u32)
    ensures
        r as int == (match parse_u32_spec(s@) {
            Some(v) => v,
            None => 0int,
        }),
{
    let cs = str_to_chars(s.as_str());
    let n = cs.len();
    let start: usize = if n >= 1 && cs[0] == '+' {
        1
    } else {
        0
    };
    let ghost body = if s@.len() >= 1 && s@[0] == '+' {
        s@.skip(1)
    } else {
        s@
    };
    proof {
        assert(body =~= s@.subrange(start as int, n as int));
    }
    if start == n {
        proof {
            assert(body.len() == 0);
        }
        return 0;
    }
    let mut v: u32 = 0;
    let mut over = false;
    let mut k: usize = start;
    while k < n
        invariant
            start <= k <= n,
            n == cs@.len(),
            cs@ == s@,
            body == s@.subrange(start as int, n as int),
            body == (if s@.len() >= 1 && s@[0] == '+' {
                s@.skip(1)
            } else {
                s@
            }),
            forall|t: int| start <= t < k ==> is_digit(s@[t]),
            !over ==> v == digits_value(s@.subrange(start as int, k as int)),
            over ==> digits_value(s@.subrange(start as int, k as int)) > 0xffff_ffff,
        decreases n - k,
    {
        let c = cs[k];
        if !('0' <= c && c <= '9') {
            proof {
                assert(body[k as int - start as int] == s@[k as int]);
                assert(!is_digit(body[k as int - start as int]));
                assert(!all_digits(body));
                assert(parse_u32_spec(s@) is None);
            }
            return 0;
        }
        let d: u32 = c as u32 - '0' as u32;
        proof {
            assert(s@.subrange(start as int, k as int + 1).drop_last() =~= s@.subrange(
                start as int,
                k as int,
            ));
            assert(s@.subrange(start as int, k as int + 1).last() == s@[k as int]);
        }
        if !over {
            if v > (0xffff_ffffu32 - d) / 10 {
                over = true;
                proof {
                    let prev = digits_value(s@.subrange(start as int, k as int));
                    assert(prev * 10 + d > 0xffff_ffff) by (nonlinear_arith)
                        requires
                            prev == v,
                            v > (0xffff_ffff - d) / 10,
                            0 <= d <= 9,
                            v >= 0,
                    ;
                }
            } else {
                proof {
                    let prev = digits_value(s@.subrange(start as int, k as int));
                    assert(prev * 10 + d <= 0xffff_ffff) by (nonlinear_arith)
                        requires
                            prev == v,
                            v <= (0xffff_ffff - d) / 10,
                            0 <= d <= 9,
                            v >= 0,
                    ;
                }
                v = v * 10 + d;
            }
        } else {
            proof {
                let prev = digits_value(s@.subrange(start as int, k as int));
                assert(prev * 10 + d > 0xffff_ffff) by (nonlinear_arith)
                    requires
                        prev > 0xffff_ffff,
                        0 <= d <= 9,
                ;
            }
        }
        k += 1;
    }
    if over {
        return 0;
    }
    proof {
        assert(all_digits(body));
        assert(body.len() >= 1);
    }
    v
}

/// The content of the first snippet named `nm`, per [`find_named`].
fn find_snippet_content(snippets: &Vec<Snippet>, nm: &String) -> (r: Option<String>)
    ensures
        ({
            let f = find_named(snippets@.map_values(|s: Snippet| s@), nm@);
            match r {
                Some(c) => f == Some(c@),
                None => f is None,
            }
        }),
{
    let ghost sv = snippets@.map_values(|s: Snippet| s@);
    let mut i: usize = 0;
    proof {
        assert(sv.skip(0) =~= sv);
    }
    while i < snippets.len()
        invariant
            i <= snippets@.len(),
            sv == snippets@.map_values(|s: Snippet| s@),
            find_named(sv, nm@) == find_named(sv.skip(i as int), nm@),
        decreases snippets@.len() - i,
    {
        if snippets[i].name == *nm {
            return Some(snippets[i].content.clone());
        }
        proof {
            assert(sv.skip(i as int).drop_first() =~= sv.skip(i as int + 1));
        }
        i += 1;
    }
    proof {
        assert(sv.skip(snippets@.len() as int) =~= Seq::<SnippetView>::empty());
    }
    None
}

/// Appends the characters of `src` to `dst`.
fn append_chars(dst: &mut Vec<char>, src: &Vec<char>)
    ensures
        final(dst)@ == old(dst)@ + src@,
{
    let mut i: usize = 0;
    while i < src.len()
        invariant
            i <= src@.len(),
            dst@ == old(dst)@ + src@.subrange(0, i as int),
        decreases src@.len() - i,
    {
        dst.push(src[i]);
        i += 1;
        proof {
            assert(dst@ =~= old(dst)@ + src@.subrange(0, i as int));
        }
    }
    proof {
        assert(old(dst)@ + src@.subrange(0, src@.len() as int) =~= old(dst)@ + src@);
    }
}

/// The environment as it stands after `idx` fresh identifiers have been
/// consumed.
pub open spec fn cur_env(env: EnvView, idx: int) -> EnvView {
    EnvView {
        clipboard_text: env.clipboard_text,
        history: env.history,
        snippets: env.snippets,
        uuids: env.uuids.skip(idx),
        now: env.now,
    }
}

/// Scans the raw content left to right, passing literal text through and
/// substituting each well-formed placeholder by its modified value, per
/// [`resolve_spec`]. The cursor offset is the character position in the
/// output where the first `cursor` placeholder landed.
pub fn parse_and_resolve_placeholders(raw_content: &str, env: &ResolveEnv) -> (r: ResolvedSnippet)
    requires
        valid_civil(env.now),
    ensures
        r.content@ == resolve_spec(raw_content@, env@).0,
        match r.cursor_pos {
            Some(u) => resolve_spec(raw_content@, env@).1 == Some(u as int),
            None => resolve_spec(raw_content@, env@).1 is None,
        },
{
    let s = str_to_chars(raw_content);
    let n = s.len();
    let mut out: Vec<char> = Vec::new();
    let mut cursor: Option<usize> = None;
    let mut uuid_idx: usize = 0;
    let mut i: usize = 0;
    proof {
        assert(env@.uuids.skip(0) =~= env@.uuids);
        assert(cur_env(env@, 0) == env@);
    }
    while i < n
        invariant
            n == s@.len(),
            s@ == raw_content@,
            i <= n,
            uuid_idx <= env.uuids@.len(),
            valid_civil(env.now),
            ({
                let rest = resolve_from(s@, i as int, cur_env(env@, uuid_idx as int));
                let full = resolve_spec(raw_content@, env@);
                &&& full.0 == out@ + rest.0
                &&& full.1 == (match cursor {
                    Some(c) => Some(c as int),
                    None => match rest.1 {
                        Some(k) => Some(out@.len() + k),
                        None => None::<int>,
                    },
                })
            }),
        decreases n - i,
    {
        let ghost cur = cur_env(env@, uuid_idx as int);
        proof {
            reveal_strlit("cursor");
            reveal_strlit("uuid");
            reveal_strlit("clipboard");
            reveal_strlit("snippet");
            reveal_strlit("date");
            reveal_strlit("time");
            reveal_strlit("datetime");
            reveal_strlit("day");
        }
        match placeholder_at(&s, i) {
            Some((ph, end)) => {
                if string_eq_lit(&ph.name, "cursor") {
                    proof {
                        reveal_strlit("cursor");
                        reveal_strlit("uuid");
                        assert(ph.name@ == "cursor"@);
                        assert("cursor"@.len() == 6);
                        assert("uuid"@.len() == 4);
                        assert(ph@.name != "uuid"@);
                        assert(env_after(ph@, cur) == cur);
                    }
                    if cursor.is_none() {
                        cursor = Some(out.len());
                    }
                    i = end;
                } else {
                    let ghost idx0 = uuid_idx as int;
                    let value: String;
                    if string_eq_lit(&ph.name, "uuid") {
                        if uuid_idx < env.uuids.len() {
                            proof {
                                assert(cur.uuids.first() == env@.uuids[idx0]);
                                assert(env@.uuids[idx0] == env.uuids@[idx0]@);
                            }
                            value = crate::modifiers::uppercase_value(
                                env.uuids[uuid_idx].as_str(),
                            );
                            uuid_idx += 1;
                            proof {
                                assert(cur.uuids.drop_first() =~= env@.uuids.skip(idx0 + 1));
                                assert(env_after(ph@, cur) == cur_env(env@, idx0 + 1));
                            }
                        } else {
                            value = String::new();
                            proof {
                                assert(cur.uuids.len() == 0);
                                assert(env_after(ph@, cur) == cur);
                            }
                        }
                    } else {
                        proof {
                            assert(env_after(ph@, cur) == cur);
                        }
                        if string_eq_lit(&ph.name, "clipboard") {
                            let off: u32 = match attr_get(&ph.attributes, "offset") {
                                Some(o) => parse_u32_or_zero(&o),
                                None => 0,
                            };
                            if off > 0 {
                                let hidx = (off - 1) as usize;
                                if hidx < env.clipboard_history.len() {
                                    proof {
                                        assert(cur.history[hidx as int]
                                            == env.clipboard_history@[hidx as int]@);
                                    }
                                    value = env.clipboard_history[hidx].clone();
                                } else {
                                    value = String::new();
                                }
                            } else {
                                match &env.clipboard_text {
                                    Some(t) => {
                                        value = t.clone();
                                    },
                                    None => {
                                        value = String::new();
                                    },
                                }
                            }
                        } else if string_eq_lit(&ph.name, "snippet") {
                            match attr_get(&ph.attributes, "name") {
                                Some(nm) => {
                                    match find_snippet_content(&env.snippets, &nm) {
                                        Some(content) => {
                                            let cs2 = str_to_chars(content.as_str());
                                            if contains_placeholder(&cs2) {
                                                value = String::new();
                                            } else {
                                                value = content;
                                            }
                                        },
                                        None => {
                                            value = String::new();
                                        },
                                    }
                                },
                                None => {
                                    value = String::new();
                                },
                            }
                        } else if string_eq_lit(&ph.name, "date") || string_eq_lit(
                            &ph.name,
                            "time",
                        ) || string_eq_lit(&ph.name, "datetime") || string_eq_lit(
                            &ph.name,
                            "day",
                        ) {
                            let off_attr = attr_get(&ph.attributes, "offset");
                            let fmt_attr = attr_get(&ph.attributes, "format");
                            value = date_placeholder_value(&ph.name, &off_attr, &fmt_attr, env.now);
                        } else {
                            value = String::new();
                        }
                    }
                    proof {
                        assert(value@ == ph_value(ph@, cur));
                    }
                    let modified = apply_modifiers(value, &ph.modifiers);
                    proof {
                        assert(modified@ == ph_output(ph@, cur));
                    }
                    let mchars = str_to_chars(modified.as_str());
                    append_chars(&mut out, &mchars);
                    i = end;
                }
            },
            None => {
                out.push(s[i]);
                i += 1;
                proof {
                    assert(out@ =~= out@.subrange(0, out@.len() - 1) + seq![s@[i - 1]]);
                }
            },
        }
    }
    proof {
        let rest = resolve_from(s@, n as int, cur_env(env@, uuid_idx as int));
        assert(rest.0 =~= Seq::<char>::empty());
        assert(resolve_spec(raw_content@, env@).0 =~= out@);
    }
    let content = chars_to_string(&out);
    ResolvedSnippet { content, cursor_pos: cursor }
}

/// Resolves the content against the environment when one could be built;
/// without one, the raw content passes through unresolved, with no cursor
/// offset, so a store failure still expands to something.
pub fn resolve_or_raw(raw_content: &str, env_opt: Option<&ResolveEnv>) -> (r: ResolvedSnippet)
    requires
        match env_opt {
            Some(env) => valid_civil(env.now),
            None => true,
        },
    ensures
        match env_opt {
            Some(env) => {
                &&& r.content@ == resolve_spec(raw_content@, env@).0
                &&& (match r.cursor_pos {
                    Some(u) => resolve_spec(raw_content@, env@).1 == Some(u as int),
                    None => resolve_spec(raw_content@, env@).1 is None,
                })
            },
            None => r.content@ == raw_content@ && r.cursor_pos is None,
        },
{
    match env_opt {
        Some(env) => parse_and_resolve_placeholders(raw_content, env),
        None => ResolvedSnippet { content: String::from_str(raw_content), cursor_pos: None },
    }
}

/// How many `uuid` placeholders the content holds, per
/// [`uuid_count_from`]; an environment needs this many fresh identifiers.
pub fn count_uuid_placeholders(content: &str) -> (r: usize)
    ensures
        r as int == uuid_count_from(content@, 0),
{
    let s = str_to_chars(content);
    let n = s.len();
    let mut cnt: usize = 0;
    let mut i: usize = 0;
    while i < n
        invariant
            n == s@.len(),
            s@ == content@,
            i <= n,
            cnt <= i,
            uuid_count_from(content@, 0) == cnt + uuid_count_from(content@, i as int),
        decreases n - i,
    {
        match placeholder_at(&s, i) {
            Some((ph, end)) => {
                if string_eq_lit(&ph.name, "uuid") {
                    cnt += 1;
                }
                i = end;
            },
            None => {
                i += 1;
            },
        }
    }
    cnt
}

/// Relies on `uuid::Uuid::new_v4` and its `Display` form: a freshly
/// generated random identifier rendered in the 36-character hyphenated
/// form. Nothing is assumed about which identifier comes out.
#[verifier::external_body]
fn fresh_uuid() -> (r: String)
    ensures
        r@.len() == 36,
{
    uuid::Uuid::new_v4().to_string()
}

/// `n` freshly generated identifiers, for an environment about to resolve
/// a content with `n` `uuid` placeholders.
pub fn make_uuids(n: usize) -> (r: Vec<String>)
    ensures
        r@.len() == n,
        forall|j: int| 0 <= j < n ==> (#[trigger] r@[j])@.len() == 36,
{
    let mut out: Vec<String> = Vec::new();
    let mut i: usize = 0;
    while i < n
        invariant
            i <= n,
            out@.len() == i,
            forall|j: int| 0 <= j < i ==> (#[trigger] out@[j])@.len() == 36,
        decreases n - i,
    {
        out.push(fresh_uuid());
        i += 1;
    }
    out
}

/// Literal text resolves to itself: from a position after which no
/// placeholder parses, resolution returns the rest of the text unchanged.
proof fn lemma_resolve_literal(s: Seq<char>, i: int, env: EnvView)
    requires
        0 <= i <= s.len(),
        !crate::template::has_placeholder_from(s, i),
    ensures
        resolve_from(s, i, env) == (s.skip(i), None::<int>),
    decreases s.len() - i,
{
    if i < s.len() {
        lemma_resolve_literal(s, i + 1, env);
        assert(seq![s[i]] + s.skip(i + 1) =~= s.skip(i));
    } else {
        assert(s.skip(i) =~= Seq::<char>::empty());
    }
}

/// A template containing no placeholder resolves to itself, with no
/// cursor offset.
pub proof fn lemma_no_placeholder_roundtrip(s: Seq<char>, env: EnvView)
    requires
        !has_placeholder(s),
    ensures
        resolve_spec(s, env).0 == s,
        resolve_spec(s, env).1 is None,
{
    lemma_resolve_literal(s, 0, env);
    assert(s.skip(0) =~= s);
}

/// A recorded cursor offset always lies within the produced text, so the
/// orchestrator's distance from the end of the output back to the cursor
/// is never negative.
pub proof fn lemma_cursor_within_output(s: Seq<char>, i: int, env: EnvView)
    ensures
        match resolve_from(s, i, env).1 {
            Some(k) => 0 <= k <= resolve_from(s, i, env).0.len(),
            None => true,
        },
    decreases s.len() - i,
{
    if 0 <= i < s.len() {
        match placeholder_parse(s, i) {
            Some((ph, end)) => {
                if i < end <= s.len() {
                    lemma_cursor_within_output(s, end, env_after(ph, env));
                }
            },
            None => {
                lemma_cursor_within_output(s, i + 1, env);
            },
        }
    }
}

/// The recursion guard: a `snippet` placeholder whose target's content
/// itself contains a placeholder resolves to the empty text.
pub proof fn lemma_nested_snippet_guard(ph: PlaceholderView, env: EnvView, nm: Seq<char>)
    requires
        ph.name == "snippet"@,
        attr_lookup(ph.attrs, "name"@) == Some(nm),
        find_named(env.snippets, nm) is Some,
        has_placeholder(find_named(env.snippets, nm)->0),
    ensures
        ph_value(ph, env) == Seq::<char>::empty(),
{
    reveal_strlit("snippet");
    reveal_strlit("uuid");
    reveal_strlit("clipboard");
    assert("snippet"@.len() == 7);
    assert("uuid"@.len() == 4);
    assert("clipboard"@.len() == 9);
    assert(ph.name != "uuid"@);
    assert(ph.name != "clipboard"@);
}

} // verus!