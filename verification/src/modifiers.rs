//! Text modifiers applied to resolved placeholder values.
//!
//! A placeholder may name a chain of modifiers, applied in written order to
//! the resolved value only, never to surrounding literal text: `uppercase`
//! and `lowercase` (ASCII case folding), `trim` (surrounding whitespace
//! removed), `percent-encode` (control bytes, space, `"`, `<`, `>`, backtick
//! and all non-ASCII bytes of the UTF-8 form escaped as `%XX`), and
//! `json-stringify` (the value as a quoted, escaped JSON string literal).
//! An unknown modifier leaves the value unchanged.

use vstd::prelude::*;
use crate::chars::{
    ascii_upper, ascii_lower, ascii_upper_char, ascii_lower_char, trim_spec, trim_range,
    str_to_chars, chars_to_string, push_char,
};

verus! {

/// A byte that percent-encoding must escape: the C0 controls and delete,
/// space, `"`, `<`, `>`, backtick, and every non-ASCII byte.
pub open spec fn pct_unsafe_byte(b: u8) -> bool {
    b < 0x20 || b == 0x7f || b >= 0x80 || b == 0x20 || b == 0x22 || b == 0x3c || b == 0x3e
        || b == 0x60
}

/// The upper-case hexadecimal digit for `n`, for `0 <= n < 16`.
pub open spec fn hex_upper_digit(n: int) -> char {
    if n == 0 {
        '0'
    } else if n == 1 {
        '1'
    } else if n == 2 {
        '2'
    } else if n == 3 {
        '3'
    } else if n == 4 {
        '4'
    } else if n == 5 {
        '5'
    } else if n == 6 {
        '6'
    } else if n == 7 {
        '7'
    } else if n == 8 {
        '8'
    } else if n == 9 {
        '9'
    } else if n == 10 {
        'A'
    } else if n == 11 {
        'B'
    } else if n == 12 {
        'C'
    } else if n == 13 {
        'D'
    } else if n == 14 {
        'E'
    } else {
        'F'
    }
}

/// Executable [`hex_upper_digit`].
pub fn hex_upper(n: u8) -> (r: char)
    requires
        n < 16,
    ensures
        r == hex_upper_digit(n as int),
{
    match n {
        0 => '0',
        1 => '1',
        2 => '2',
        3 => '3',
        4 => '4',
        5 => '5',
        6 => '6',
        7 => '7',
        8 => '8',
        9 => '9',
        10 => 'A',
        11 => 'B',
        12 => 'C',
        13 => 'D',
        14 => 'E',
        _ => 'F',
    }
}

/// The percent-encoding of one byte: itself if safe, `%XX` otherwise.
pub open spec fn pct_encode_byte(b: u8) -> Seq<char> {
    if pct_unsafe_byte(b) {
        seq!['%', hex_upper_digit(b as int / 16), hex_upper_digit(b as int % 16)]
    } else {
        seq![b as char]
    }
}

/// The percent-encoding of a byte sequence.
pub open spec fn pct_encode_bytes(bs: Seq<u8>) -> Seq<char>
    decreases bs.len(),
{
    if bs.len() == 0 {
        seq![]
    } else {
        pct_encode_byte(bs.first()) + pct_encode_bytes(bs.drop_first())
    }
}

/// The percent-encoding of a text: its UTF-8 bytes, each escaped or kept.
pub open spec fn percent_encode_spec(s: Seq<char>) -> Seq<char> {
    pct_encode_bytes(vstd::utf8::encode_utf8(s))
}

/// The percent-encoded form of `s`, per [`percent_encode_spec`].
pub fn percent_encode_value(s: &str) -> (r: String)
    ensures
        r@ == percent_encode_spec(s@),
{
    let bs = s.as_bytes();
    let n = bs.len();
    let mut out = String::new();
    let mut i: usize = 0;
    proof {
        assert(bs@.skip(0) =~= bs@);
    }
    while i < n
        invariant
            n == bs@.len(),
            i <= n,
            bs@ == vstd::utf8::encode_utf8(s@),
            pct_encode_bytes(bs@) == out@ + pct_encode_bytes(bs@.skip(i as int)),
        decreases n - i,
    {
        let b = bs[i];
        if b < 0x20 || b >= 0x7f || b == 0x20 || b == 0x22 || b == 0x3c || b == 0x3e || b == 0x60 {
            push_char(&mut out, '%');
            push_char(&mut out, hex_upper(b / 16));
            push_char(&mut out, hex_upper(b % 16));
        } else {
            push_char(&mut out, b as char);
        }
        proof {
            assert(bs@.skip(i as int).drop_first() =~= bs@.skip(i as int + 1));
            assert(pct_encode_bytes(bs@.skip(i as int)) == pct_encode_byte(bs@[i as int])
                + pct_encode_bytes(bs@.skip(i as int + 1)));
        }
        i += 1;
    }
    proof {
        assert(bs@.skip(n as int) =~= Seq::<u8>::empty());
        assert(out@ =~= pct_encode_bytes(bs@));
    }
    out
}

/// What `json-stringify` produces for a given text: the JSON string literal
/// whose value is that text.
pub uninterp spec fn json_quoted(s: Seq<char>) -> Seq<char>;

/// Relies on `serde_json::to_string` applied to a string value: the result
/// is the JSON string literal for the text, a function of the characters
/// alone, and serializing a string value cannot fail.
#[verifier::external_body]
fn json_quote(s: &str) -> (r: String)
    ensures
        r@ == json_quoted(s@),
{
    serde_json::to_string(s).unwrap()
}

/// The effect of one modifier on a value.
pub open spec fn apply_modifier_spec(v: Seq<char>, m: Seq<char>) -> Seq<char> {
    if m == "uppercase"@ {
        v.map_values(|c: char| ascii_upper(c))
    } else if m == "lowercase"@ {
        v.map_values(|c: char| ascii_lower(c))
    } else if m == "trim"@ {
        trim_spec(v)
    } else if m == "percent-encode"@ {
        percent_encode_spec(v)
    } else if m == "json-stringify"@ {
        json_quoted(v)
    } else {
        v
    }
}

/// The effect of a modifier chain, applied in order.
pub open spec fn apply_modifiers_spec(v: Seq<char>, ms: Seq<Seq<char>>) -> Seq<char>
    decreases ms.len(),
{
    if ms.len() == 0 {
        v
    } else {
        apply_modifiers_spec(apply_modifier_spec(v, ms.first()), ms.drop_first())
    }
}

/// The ASCII upper-case image of a whole text.
pub fn uppercase_value(s: &str) -> (r: String)
    ensures
        r@ == s@.map_values(|c: char| ascii_upper(c)),
{
    let cs = str_to_chars(s);
    let mut out = String::new();
    let mut i: usize = 0;
    while i < cs.len()
        invariant
            cs@ == s@,
            i <= cs@.len(),
            out@ == s@.subrange(0, i as int).map_values(|c: char| ascii_upper(c)),
        decreases cs@.len() - i,
    {
        push_char(&mut out, ascii_upper_char(cs[i]));
        i += 1;
        proof {
            assert(out@ =~= s@.subrange(0, i as int).map_values(|c: char| ascii_upper(c)));
        }
    }
    proof {
        assert(s@.subrange(0, s@.len() as int) =~= s@);
    }
    out
}

/// The ASCII lower-case image of a whole text.
pub fn lowercase_value(s: &str) -> (r: String)
    ensures
        r@ == s@.map_values(|c: char| ascii_lower(c)),
{
    let cs = str_to_chars(s);
    let mut out = String::new();
    let mut i: usize = 0;
    while i < cs.len()
        invariant
            cs@ == s@,
            i <= cs@.len(),
            out@ == s@.subrange(0, i as int).map_values(|c: char| ascii_lower(c)),
        decreases cs@.len() - i,
    {
        push_char(&mut out, ascii_lower_char(cs[i]));
        i += 1;
        proof {
            assert(out@ =~= s@.subrange(0, i as int).map_values(|c: char| ascii_lower(c)));
        }
    }
    proof {
        assert(s@.subrange(0, s@.len() as int) =~= s@);
    }
    out
}

/// One modifier applied to a value, per [`apply_modifier_spec`].
pub fn apply_modifier(value: String, modifier: &String) -> (r: String)
    ensures
        r@ == apply_modifier_spec(value@, modifier@),
{
    if crate::chars::string_eq_lit(modifier, "uppercase") {
        uppercase_value(value.as_str())
    } else if crate::chars::string_eq_lit(modifier, "lowercase") {
        lowercase_value(value.as_str())
    } else if crate::chars::string_eq_lit(modifier, "trim") {
        let cs = str_to_chars(value.as_str());
        let t = trim_range(&cs, 0, cs.len());
        proof {
            assert(cs@.subrange(0, cs@.len() as int) =~= cs@);
        }
        chars_to_string(&t)
    } else if crate::chars::string_eq_lit(modifier, "percent-encode") {
        percent_encode_value(value.as_str())
    } else if crate::chars::string_eq_lit(modifier, "json-stringify") {
        json_quote(value.as_str())
    } else {
        value
    }
}

/// A modifier chain applied in order, per [`apply_modifiers_spec`].
pub fn apply_modifiers(value: String, modifiers: &Vec<String>) -> (r: String)
    ensures
        r@ == apply_modifiers_spec(value@, modifiers@.map_values(|m: String| m@)),
{
    let ghost ms = modifiers@.map_values(|m: String| m@);
    let ghost v0 = value@;
    let mut v = value;
    let mut i: usize = 0;
    proof {
        assert(ms.skip(0) =~= ms);
    }
    while i < modifiers.len()
        invariant
            i <= modifiers@.len(),
            ms == modifiers@.map_values(|m: String| m@),
            apply_modifiers_spec(v0, ms) == apply_modifiers_spec(v@, ms.skip(i as int)),
        decreases modifiers@.len() - i,
    {
        v = apply_modifier(v, &modifiers[i]);
        proof {
            assert(ms.skip(i as int).drop_first() =~= ms.skip(i as int + 1));
        }
        i += 1;
    }
    proof {
        assert(ms.skip(modifiers@.len() as int) =~= Seq::<Seq<char>>::empty());
    }
    v
}

/// ASCII upper-casing is idempotent on characters.
pub proof fn lemma_ascii_upper_idempotent(c: char)
    ensures
        ascii_upper(ascii_upper(c)) == ascii_upper(c),
{
}

/// Applying the `uppercase` modifier twice in sequence yields the same
/// value as applying it once.
pub proof fn lemma_uppercase_idempotent(v: Seq<char>)
    ensures
        apply_modifiers_spec(v, seq!["uppercase"@, "uppercase"@]) == apply_modifiers_spec(
            v,
            seq!["uppercase"@],
        ),
{
    let up = "uppercase"@;
    let once = v.map_values(|c: char| ascii_upper(c));
    let twice = once.map_values(|c: char| ascii_upper(c));
    assert forall|i: int| 0 <= i < twice.len() implies twice[i] == once[i] by {
        lemma_ascii_upper_idempotent(v[i]);
    }
    assert(twice =~= once);
    assert(seq![up, up].drop_first() =~= seq![up]);
    assert(seq![up].drop_first() =~= Seq::<Seq<char>>::empty());
    assert(apply_modifiers_spec(v, seq![up, up]) == apply_modifiers_spec(once, seq![up]));
    assert(apply_modifiers_spec(once, seq![up]) == apply_modifiers_spec(
        twice,
        Seq::<Seq<char>>::empty(),
    ));
}

} // verus!