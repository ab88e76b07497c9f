//! The placeholder grammar of snippet contents.
//!
//! A placeholder is written `{name key="value" key2=value | modifier | ...}`:
//! a bare word name, zero or more `key=value` attributes (the value either
//! double-quoted or a bare token without spaces or `}`), and zero or more
//! pipe-separated modifier names. Text outside placeholders is literal, and a
//! `{` that does not open a well-formed placeholder is literal as well.
//! Placeholders are found scanning left to right and do not overlap.
//!
//! Attributes with the same key may repeat; the last occurrence wins when a
//! key is looked up. A quoted value may hold any character but `"`; an
//! unterminated quote means the `{` was not a placeholder after all.

use vstd::prelude::*;
use crate::chars::{
    is_word_char, is_space_char, word_char, space_char, chars_to_string, trim_spec, trim_range,
};

verus! {

/// A modifier name character: a word character, `%` or `-`.
pub open spec fn is_mod_char(c: char) -> bool {
    is_word_char(c) || c == '%' || c == '-'
}

/// Executable test for [`is_mod_char`].
pub fn mod_char(c: char) -> (r: bool)
    ensures
        r == is_mod_char(c),
{
    word_char(c) || c == '%' || c == '-'
}

/// A bare attribute value character: anything but whitespace and `}`.
pub open spec fn is_bare_char(c: char) -> bool {
    !is_space_char(c) && c != '}'
}

/// The end of the run of word characters starting at `i`.
pub open spec fn word_end(s: Seq<char>, i: int) -> int
    decreases s.len() - i,
{
    if 0 <= i < s.len() && is_word_char(s[i]) {
        word_end(s, i + 1)
    } else {
        i
    }
}

/// The end of the run of whitespace characters starting at `i`.
pub open spec fn ws_end(s: Seq<char>, i: int) -> int
    decreases s.len() - i,
{
    if 0 <= i < s.len() && is_space_char(s[i]) {
        ws_end(s, i + 1)
    } else {
        i
    }
}

/// The end of the run of bare-value characters starting at `i`.
pub open spec fn bare_end(s: Seq<char>, i: int) -> int
    decreases s.len() - i,
{
    if 0 <= i < s.len() && is_bare_char(s[i]) {
        bare_end(s, i + 1)
    } else {
        i
    }
}

/// The end of the run of modifier-name characters starting at `i`.
pub open spec fn mod_end(s: Seq<char>, i: int) -> int
    decreases s.len() - i,
{
    if 0 <= i < s.len() && is_mod_char(s[i]) {
        mod_end(s, i + 1)
    } else {
        i
    }
}

/// The position of the first `"` at or after `i`, or the length of `s` if
/// there is none.
pub open spec fn quote_pos(s: Seq<char>, i: int) -> int
    decreases s.len() - i,
{
    if 0 <= i < s.len() {
        if s[i] == '"' {
            i
        } else {
            quote_pos(s, i + 1)
        }
    } else {
        i
    }
}

/// Each run end lies between its start and the end of the text.
pub proof fn lemma_run_end_bounds(s: Seq<char>, i: int)
    requires
        0 <= i <= s.len(),
    ensures
        i <= word_end(s, i) <= s.len(),
        i <= ws_end(s, i) <= s.len(),
        i <= bare_end(s, i) <= s.len(),
        i <= mod_end(s, i) <= s.len(),
        i <= quote_pos(s, i) <= s.len(),
    decreases s.len() - i,
{
    if i < s.len() {
        lemma_run_end_bounds(s, i + 1);
    }
}

/// One `key=value` attribute of a placeholder.
pub struct Attribute {
    pub key: String,
    pub value: String,
}

/// The parse of one placeholder: its name, its attributes in written order,
/// and its modifiers in written order.
pub struct ParsedPlaceholder {
    pub name: String,
    pub attributes: Vec<Attribute>,
    pub modifiers: Vec<String>,
}

impl View for Attribute {
    type V = (Seq<char>, Seq<char>);

    open spec fn view(&self) -> (Seq<char>, Seq<char>) {
        (self.key@, self.value@)
    }
}

/// The mathematical shape of a parsed placeholder.
pub struct PlaceholderView {
    pub name: Seq<char>,
    pub attrs: Seq<(Seq<char>, Seq<char>)>,
    pub mods: Seq<Seq<char>>,
}

impl View for ParsedPlaceholder {
    type V = PlaceholderView;

    open spec fn view(&self) -> PlaceholderView {
        PlaceholderView {
            name: self.name@,
            attrs: self.attributes@.map_values(|a: Attribute| a@),
            mods: self.modifiers@.map_values(|m: String| m@),
        }
    }
}

/// One more attribute parsed starting exactly at `i`: at least one space,
/// a word key, `=`, then a quoted or bare value. Returns the pair and the
/// position after it.
pub open spec fn attr_parse(s: Seq<char>, i: int) -> Option<((Seq<char>, Seq<char>), int)> {
    let j = ws_end(s, i);
    let k = word_end(s, j);
    if j == i || k == j || !(k < s.len() && s[k] == '=') {
        None
    } else if k + 1 < s.len() && s[k + 1] == '"' {
        let q = quote_pos(s, k + 2);
        if q < s.len() {
            Some(((s.subrange(j, k), s.subrange(k + 2, q)), q + 1))
        } else {
            None
        }
    } else {
        let v = bare_end(s, k + 1);
        if v == k + 1 {
            None
        } else {
            Some(((s.subrange(j, k), s.subrange(k + 1, v)), v))
        }
    }
}

/// All attributes parsed from `i` on, and the position after the last one.
pub open spec fn attrs_parse(s: Seq<char>, i: int) -> (Seq<(Seq<char>, Seq<char>)>, int)
    decreases s.len() - i,
{
    match attr_parse(s, i) {
        Some((kv, end)) => {
            if i < end <= s.len() {
                let (rest, rest_end) = attrs_parse(s, end);
                (seq![kv] + rest, rest_end)
            } else {
                (seq![], i)
            }
        },
        None => (seq![], i),
    }
}

/// The modifier chain parsed from `i` on: each modifier is optional
/// whitespace, `|`, optional whitespace and a nonempty modifier name.
/// A `|` not followed by a modifier name makes the whole placeholder
/// ill-formed, hence the `Option`.
pub open spec fn mods_parse(s: Seq<char>, i: int) -> Option<(Seq<Seq<char>>, int)>
    decreases s.len() - i,
{
    let j = ws_end(s, i);
    if j < s.len() && s[j] == '|' {
        let k = ws_end(s, j + 1);
        let m = mod_end(s, k);
        if m == k {
            None
        } else if i < m <= s.len() {
            match mods_parse(s, m) {
                Some((rest, end)) => Some((seq![s.subrange(k, m)] + rest, end)),
                None => None,
            }
        } else {
            None
        }
    } else {
        Some((seq![], i))
    }
}

/// A whole placeholder parsed at `i`: `{`, a nonempty word name, attributes,
/// modifiers and `}`. Returns its shape and the position after the `}`.
pub open spec fn placeholder_parse(s: Seq<char>, i: int) -> Option<(PlaceholderView, int)> {
    if 0 <= i < s.len() && s[i] == '{' {
        let n_end = word_end(s, i + 1);
        if n_end == i + 1 {
            None
        } else {
            let (attrs, a_end) = attrs_parse(s, n_end);
            match mods_parse(s, a_end) {
                Some((mods, m_end)) => {
                    if m_end < s.len() && s[m_end] == '}' {
                        Some((
                            PlaceholderView { name: s.subrange(i + 1, n_end), attrs, mods },
                            m_end + 1,
                        ))
                    } else {
                        None
                    }
                },
                None => None,
            }
        }
    } else {
        None
    }
}

/// Whether any position of `s` from `i` on starts a well-formed placeholder.
pub open spec fn has_placeholder_from(s: Seq<char>, i: int) -> bool
    decreases s.len() - i,
{
    if 0 <= i < s.len() {
        placeholder_parse(s, i) is Some || has_placeholder_from(s, i + 1)
    } else {
        false
    }
}

/// Whether `s` contains any well-formed placeholder.
pub open spec fn has_placeholder(s: Seq<char>) -> bool {
    has_placeholder_from(s, 0)
}

/// A parsed attribute ends after the position it started at, within bounds.
pub proof fn lemma_attr_parse_bounds(s: Seq<char>, i: int)
    requires
        0 <= i <= s.len(),
        attr_parse(s, i) is Some,
    ensures
        i < (attr_parse(s, i)->0).1 <= s.len(),
{
    lemma_run_end_bounds(s, i);
    let j = ws_end(s, i);
    lemma_run_end_bounds(s, j);
    let k = word_end(s, j);
    if k + 1 < s.len() && s[k + 1] == '"' {
        lemma_run_end_bounds(s, k + 2);
    } else {
        lemma_run_end_bounds(s, k + 1);
    }
}

/// The attribute list parse never moves backwards and stays within bounds.
pub proof fn lemma_attrs_parse_bounds(s: Seq<char>, i: int)
    requires
        0 <= i <= s.len(),
    ensures
        i <= attrs_parse(s, i).1 <= s.len(),
    decreases s.len() - i,
{
    if let Some((kv, end)) = attr_parse(s, i) {
        lemma_attr_parse_bounds(s, i);
        if i < end <= s.len() {
            lemma_attrs_parse_bounds(s, end);
        }
    }
}

/// A successful modifier-chain parse stays within bounds.
pub proof fn lemma_mods_parse_bounds(s: Seq<char>, i: int)
    requires
        0 <= i <= s.len(),
        mods_parse(s, i) is Some,
    ensures
        i <= (mods_parse(s, i)->0).1 <= s.len(),
    decreases s.len() - i,
{
    let j = ws_end(s, i);
    lemma_run_end_bounds(s, i);
    if j < s.len() && s[j] == '|' {
        let k = ws_end(s, j + 1);
        lemma_run_end_bounds(s, j + 1);
        let m = mod_end(s, k);
        lemma_run_end_bounds(s, k);
        if m != k && i < m <= s.len() {
            lemma_mods_parse_bounds(s, m);
        }
    }
}

/// A successful placeholder parse ends after its `{`, within bounds.
pub proof fn lemma_placeholder_parse_bounds(s: Seq<char>, i: int)
    requires
        0 <= i <= s.len(),
        placeholder_parse(s, i) is Some,
    ensures
        i < (placeholder_parse(s, i)->0).1 <= s.len(),
{
    lemma_run_end_bounds(s, i + 1);
    let n_end = word_end(s, i + 1);
    lemma_attrs_parse_bounds(s, n_end);
    let a_end = attrs_parse(s, n_end).1;
    lemma_mods_parse_bounds(s, a_end);
}

/// The characters of `s` between `a` and `b`, as a string.
pub fn string_of_range(s: &Vec<char>, a: usize, b: usize) -> (r: String)
    requires
        a <= b <= s@.len(),
    ensures
        r@ == s@.subrange(a as int, b as int),
{
    let mut r = String::new();
    let mut i: usize = a;
    while i < b
        invariant
            a <= i <= b <= s@.len(),
            r@ == s@.subrange(a as int, i as int),
        decreases b - i,
    {
        crate::chars::push_char(&mut r, s[i]);
        i += 1;
        proof {
            assert(r@ =~= s@.subrange(a as int, i as int));
        }
    }
    r
}

/// The end of the word-character run starting at `i`.
pub fn scan_word(s: &Vec<char>, i: usize) -> (r: usize)
    requires
        i <= s@.len(),
    ensures
        r == word_end(s@, i as int),
        i <= r <= s@.len(),
{
    let mut j: usize = i;
    while j < s.len() && word_char(s[j])
        invariant
            i <= j <= s@.len(),
            word_end(s@, i as int) == word_end(s@, j as int),
        decreases s@.len() - j,
    {
        j += 1;
    }
    j
}

/// The end of the whitespace run starting at `i`.
pub fn scan_ws(s: &Vec<char>, i: usize) -> (r: usize)
    requires
        i <= s@.len(),
    ensures
        r == ws_end(s@, i as int),
        i <= r <= s@.len(),
{
    let mut j: usize = i;
    while j < s.len() && space_char(s[j])
        invariant
            i <= j <= s@.len(),
            ws_end(s@, i as int) == ws_end(s@, j as int),
        decreases s@.len() - j,
    {
        j += 1;
    }
    j
}

/// The end of the bare-value run starting at `i`.
pub fn scan_bare(s: &Vec<char>, i: usize) -> (r: usize)
    requires
        i <= s@.len(),
    ensures
        r == bare_end(s@, i as int),
        i <= r <= s@.len(),
{
    let mut j: usize = i;
    while j < s.len() && !space_char(s[j]) && s[j] != '}'
        invariant
            i <= j <= s@.len(),
            bare_end(s@, i as int) == bare_end(s@, j as int),
        decreases s@.len() - j,
    {
        j += 1;
    }
    j
}

/// The end of the modifier-name run starting at `i`.
pub fn scan_mod(s: &Vec<char>, i: usize) -> (r: usize)
    requires
        i <= s@.len(),
    ensures
        r == mod_end(s@, i as int),
        i <= r <= s@.len(),
{
    let mut j: usize = i;
    while j < s.len() && mod_char(s[j])
        invariant
            i <= j <= s@.len(),
            mod_end(s@, i as int) == mod_end(s@, j as int),
        decreases s@.len() - j,
    {
        j += 1;
    }
    j
}

/// The position of the first `"` at or after `i`, or the length of `s`.
pub fn scan_quote(s: &Vec<char>, i: usize) -> (r: usize)
    requires
        i <= s@.len(),
    ensures
        r == quote_pos(s@, i as int),
        i <= r <= s@.len(),
{
    let mut j: usize = i;
    while j < s.len() && s[j] != '"'
        invariant
            i <= j <= s@.len(),
            quote_pos(s@, i as int) == quote_pos(s@, j as int),
        decreases s@.len() - j,
    {
        j += 1;
    }
    j
}

/// One attribute parsed at `i`, as [`attr_parse`] describes.
fn parse_one_attr(s: &Vec<char>, i: usize) -> (r: Option<(Attribute, usize)>)
    requires
        i <= s@.len(),
    ensures
        match r {
            Some((a, end)) => {
                &&& attr_parse(s@, i as int) == Some((a@, end as int))
                &&& i < end <= s@.len()
            },
            None => attr_parse(s@, i as int) is None,
        },
{
    let j = scan_ws(s, i);
    let k = scan_word(s, j);
    if j == i || k == j || !(k < s.len() && s[k] == '=') {
        return None;
    }
    if k + 1 < s.len() && s[k + 1] == '"' {
        let q = scan_quote(s, k + 2);
        if q < s.len() {
            let key = string_of_range(s, j, k);
            let value = string_of_range(s, k + 2, q);
            Some((Attribute { key, value }, q + 1))
        } else {
            None
        }
    } else {
        let v = scan_bare(s, k + 1);
        if v == k + 1 {
            None
        } else {
            let key = string_of_range(s, j, k);
            let value = string_of_range(s, k + 1, v);
            Some((Attribute { key, value }, v))
        }
    }
}

/// All attributes parsed from `i` on, as [`attrs_parse`] describes.
fn parse_attrs_at(s: &Vec<char>, i: usize) -> (r: (Vec<Attribute>, usize))
    requires
        i <= s@.len(),
    ensures
        r.0@.map_values(|a: Attribute| a@) == attrs_parse(s@, i as int).0,
        r.1 == attrs_parse(s@, i as int).1,
        i <= r.1 <= s@.len(),
{
    let mut acc: Vec<Attribute> = Vec::new();
    let mut p: usize = i;
    loop
        invariant
            i <= p <= s@.len(),
            attrs_parse(s@, i as int).0 == acc@.map_values(|a: Attribute| a@) + attrs_parse(
                s@,
                p as int,
            ).0,
            attrs_parse(s@, i as int).1 == attrs_parse(s@, p as int).1,
        decreases s@.len() - p,
    {
        proof {
            lemma_attrs_parse_bounds(s@, p as int);
        }
        match parse_one_attr(s, p) {
            Some((a, end)) => {
                acc.push(a);
                p = end;
                proof {
                    assert(attrs_parse(s@, i as int).0 =~= acc@.map_values(|a: Attribute| a@)
                        + attrs_parse(s@, p as int).0);
                }
            },
            None => {
                proof {
                    assert(attrs_parse(s@, p as int).0 =~= Seq::<(Seq<char>, Seq<char>)>::empty());
                    assert(attrs_parse(s@, i as int).0 =~= acc@.map_values(|a: Attribute| a@));
                }
                return (acc, p);
            },
        }
    }
}

/// The attributes of a placeholder's attribute text, in written order.
/// The text is expected as the placeholder grammar produces it: every
/// attribute, the first included, preceded by whitespace.
pub fn parse_attributes(attr_str: &str) -> (r: Vec<Attribute>)
    ensures
        r@.map_values(|a: Attribute| a@) == attrs_parse(attr_str@, 0).0,
{
    let cs = crate::chars::str_to_chars(attr_str);
    let (attrs, _end) = parse_attrs_at(&cs, 0);
    attrs
}

/// The modifier chain parsed from `i` on, as [`mods_parse`] describes.
fn parse_mods_at(s: &Vec<char>, i: usize) -> (r: Option<(Vec<String>, usize)>)
    requires
        i <= s@.len(),
    ensures
        match r {
            Some((ms, end)) => {
                &&& mods_parse(s@, i as int) == Some(
                    (ms@.map_values(|m: String| m@), end as int),
                )
                &&& i <= end <= s@.len()
            },
            None => mods_parse(s@, i as int) is None,
        },
{
    let mut acc: Vec<String> = Vec::new();
    let mut p: usize = i;
    loop
        invariant
            i <= p <= s@.len(),
            mods_parse(s@, i as int) == (match mods_parse(s@, p as int) {
                Some((ms, end)) => Some::<(Seq<Seq<char>>, int)>(
                    (acc@.map_values(|m: String| m@) + ms, end),
                ),
                None => None,
            }),
        decreases s@.len() - p,
    {
        let j = scan_ws(s, p);
        if j < s.len() && s[j] == '|' {
            let k = scan_ws(s, j + 1);
            let m = scan_mod(s, k);
            if m == k {
                proof {
                    assert(mods_parse(s@, p as int) is None);
                }
                return None;
            }
            let name = string_of_range(s, k, m);
            acc.push(name);
            proof {
                let ghost old_p = p as int;
                assert(m > p);
            }
            let ghost prev = p as int;
            p = m;
            proof {
                if let Some((ms, end)) = mods_parse(s@, p as int) {
                    assert(mods_parse(s@, prev) == Some::<(Seq<Seq<char>>, int)>(
                        (seq![s@.subrange(k as int, m as int)] + ms, end),
                    ));
                    assert(acc@.map_values(|m: String| m@) + ms =~= acc@.drop_last()
                        .map_values(|m: String| m@) + (seq![s@.subrange(k as int, m as int)] + ms));
                }
            }
        } else {
            proof {
                assert(mods_parse(s@, p as int) == Some::<(Seq<Seq<char>>, int)>(
                    (Seq::<Seq<char>>::empty(), p as int),
                ));
                assert(acc@.map_values(|m: String| m@) + Seq::<Seq<char>>::empty()
                    =~= acc@.map_values(|m: String| m@));
            }
            return Some((acc, p));
        }
    }
}

/// The placeholder starting at `i`, as [`placeholder_parse`] describes.
pub fn placeholder_at(s: &Vec<char>, i: usize) -> (r: Option<(ParsedPlaceholder, usize)>)
    requires
        i <= s@.len(),
    ensures
        match r {
            Some((ph, end)) => {
                &&& placeholder_parse(s@, i as int) == Some((ph@, end as int))
                &&& i < end <= s@.len()
            },
            None => placeholder_parse(s@, i as int) is None,
        },
{
    if !(i < s.len() && s[i] == '{') {
        return None;
    }
    let n_end = scan_word(s, i + 1);
    if n_end == i + 1 {
        return None;
    }
    let (attrs, a_end) = parse_attrs_at(s, n_end);
    match parse_mods_at(s, a_end) {
        Some((mods, m_end)) => {
            if m_end < s.len() && s[m_end] == '}' {
                let name = string_of_range(s, i + 1, n_end);
                Some((ParsedPlaceholder { name, attributes: attrs, modifiers: mods }, m_end + 1))
            } else {
                None
            }
        },
        None => None,
    }
}

/// The position of the first `|` at or after `i`, or the length of `s`.
pub open spec fn pipe_pos(s: Seq<char>, i: int) -> int
    decreases s.len() - i,
{
    if 0 <= i < s.len() {
        if s[i] == '|' {
            i
        } else {
            pipe_pos(s, i + 1)
        }
    } else {
        i
    }
}

/// The pieces of `s` from `i` on, split at `|`, each trimmed, the empty
/// ones dropped.
pub open spec fn split_mods_from(s: Seq<char>, i: int) -> Seq<Seq<char>>
    decreases s.len() - i,
{
    if 0 <= i <= s.len() {
        let p = pipe_pos(s, i);
        let piece = trim_spec(s.subrange(i, p));
        let head: Seq<Seq<char>> = if piece.len() > 0 {
            seq![piece]
        } else {
            seq![]
        };
        if i <= p < s.len() {
            head + split_mods_from(s, p + 1)
        } else {
            head
        }
    } else {
        seq![]
    }
}

/// The modifier names in a `|`-separated modifier text, in written order:
/// each piece trimmed of surrounding whitespace, empty pieces dropped.
pub fn parse_modifiers(mod_str: &str) -> (r: Vec<String>)
    ensures
        r@.map_values(|m: String| m@) == split_mods_from(mod_str@, 0),
{
    let cs = crate::chars::str_to_chars(mod_str);
    let mut acc: Vec<String> = Vec::new();
    let mut i: usize = 0;
    loop
        invariant
            0 <= i <= cs@.len(),
            cs@ == mod_str@,
            split_mods_from(mod_str@, 0) == acc@.map_values(|m: String| m@) + split_mods_from(
                mod_str@,
                i as int,
            ),
        decreases cs@.len() - i,
    {
        let mut p: usize = i;
        while p < cs.len() && cs[p] != '|'
            invariant
                i <= p <= cs@.len(),
                pipe_pos(cs@, i as int) == pipe_pos(cs@, p as int),
            decreases cs@.len() - p,
        {
            p += 1;
        }
        let piece = trim_range(&cs, i, p);
        if piece.len() > 0 {
            let ps = chars_to_string(&piece);
            acc.push(ps);
        }
        if p < cs.len() {
            i = p + 1;
            proof {
                assert(split_mods_from(mod_str@, 0) =~= acc@.map_values(|m: String| m@)
                    + split_mods_from(mod_str@, i as int));
            }
        } else {
            proof {
                assert(split_mods_from(mod_str@, 0) =~= acc@.map_values(|m: String| m@));
            }
            return acc;
        }
    }
}

/// Whether the text contains any well-formed placeholder, as
/// [`has_placeholder`] describes.
pub fn contains_placeholder(s: &Vec<char>) -> (r: bool)
    ensures
        r == has_placeholder(s@),
{
    let mut i: usize = 0;
    while i < s.len()
        invariant
            i <= s@.len(),
            has_placeholder(s@) == has_placeholder_from(s@, i as int),
        decreases s@.len() - i,
    {
        if placeholder_at(s, i).is_some() {
            return true;
        }
        i += 1;
    }
    false
}

} // verus!
