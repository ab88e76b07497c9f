//! The expansion engine: the rolling match buffer and the per-keystroke
//! decision.
//!
//! The buffer holds the last characters typed, up to its capacity of 30
//! characters, evicting the oldest first. A backspace removes the last
//! character; enter, tab and escape clear the buffer, so keyword matching
//! never spans them; other control characters leave it unchanged. After
//! every keystroke the buffer's tail is compared against the store's
//! trigger keywords, in store order, and the first keyword that matches
//! wins; the buffer is cleared at once on a match so the injected
//! replacement cannot retrigger it.

use vstd::prelude::*;
use crate::chars::{is_control_char, control_char};
use crate::snippet::{Snippet, SnippetView};
use crate::resolve::ResolvedSnippet;

verus! {

/// How many characters the rolling buffer keeps.
pub const BUFFER_CAPACITY: usize = 30;

/// One logical keypress: the character it produced.
#[derive(Clone, Copy, Debug, PartialEq, Eq, Structural)]
pub enum InputEvent {
    KeyPress(char),
}

/// The last up-to-30 characters of a text.
pub open spec fn last_cap(s: Seq<char>) -> Seq<char> {
    if s.len() <= 30 {
        s
    } else {
        s.skip(s.len() - 30)
    }
}

/// One keystroke's effect on the buffer: backspace pops, enter, tab and
/// escape clear, other control characters are ignored, and a printable
/// character is appended with the oldest character evicted at capacity.
pub open spec fn buffer_step(b: Seq<char>, c: char) -> Seq<char> {
    if c == '\u{8}' {
        if b.len() > 0 {
            b.drop_last()
        } else {
            b
        }
    } else if c == '\n' || c == '\t' || c == '\u{1b}' {
        Seq::empty()
    } else if is_control_char(c) {
        b
    } else {
        last_cap(b.push(c))
    }
}

/// `suffix` is the tail of `s`.
pub open spec fn is_suffix(suffix: Seq<char>, s: Seq<char>) -> bool {
    suffix.len() <= s.len() && s.skip(s.len() - suffix.len()) == suffix
}

/// The first snippet from `i` on whose keyword is a suffix of the buffer.
pub open spec fn find_trigger_from(snips: Seq<SnippetView>, b: Seq<char>, i: int) -> Option<int>
    decreases snips.len() - i,
{
    if !(0 <= i < snips.len()) {
        None
    } else if is_suffix(snips[i].keyword, b) {
        Some(i)
    } else {
        find_trigger_from(snips, b, i + 1)
    }
}

/// The rolling buffer of recently typed characters.
pub struct MatchBuffer {
    chars: Vec<char>,
}

impl View for MatchBuffer {
    type V = Seq<char>;

    closed spec fn view(&self) -> Seq<char> {
        self.chars@
    }
}

impl MatchBuffer {
    /// The buffer never exceeds its capacity.
    pub open spec fn wf(&self) -> bool {
        self@.len() <= 30
    }

    /// An empty buffer.
    pub fn new() -> (r: MatchBuffer)
        ensures
            r@ == Seq::<char>::empty(),
            r.wf(),
    {
        MatchBuffer { chars: Vec::new() }
    }

    /// How many characters the buffer holds.
    pub fn len(&self) -> (r: usize)
        ensures
            r == self@.len(),
    {
        self.chars.len()
    }

    /// The buffer's characters, oldest first.
    pub fn contents(&self) -> (r: Vec<char>)
        ensures
            r@ == self@,
    {
        crate::chars::subvec(&self.chars, 0, self.chars.len())
    }

    /// Empties the buffer.
    pub fn clear(&mut self)
        ensures
            final(self)@ == Seq::<char>::empty(),
            final(self).wf(),
    {
        self.chars.clear();
    }

    /// Applies one keystroke, per [`buffer_step`].
    pub fn apply(&mut self, c: char)
        requires
            old(self).wf(),
        ensures
            final(self)@ == buffer_step(old(self)@, c),
            final(self).wf(),
    {
        if c == '\u{8}' {
            if self.chars.len() > 0 {
                let n = self.chars.len();
                self.chars.truncate(n - 1);
                proof {
                    assert(self.chars@ =~= old(self)@.drop_last());
                }
            }
        } else if c == '\n' || c == '\t' || c == '\u{1b}' {
            self.chars.clear();
        } else if control_char(c) {
        } else {
            self.chars.push(c);
            if self.chars.len() > BUFFER_CAPACITY {
                self.chars.remove(0);
                proof {
                    assert(self.chars@ =~= last_cap(old(self)@.push(c)));
                }
            }
        }
    }

    /// Whether the buffer's tail equals `kw`.
    pub fn ends_with(&self, kw: &Vec<char>) -> (r: bool)
        ensures
            r == is_suffix(kw@, self@),
    {
        let bn = self.chars.len();
        let kn = kw.len();
        if kn > bn {
            return false;
        }
        let start = bn - kn;
        let mut j: usize = 0;
        while j < kn
            invariant
                kn <= bn == self@.len(),
                kn == kw@.len(),
                start == bn - kn,
                j <= kn,
                forall|t: int| 0 <= t < j ==> self@[start + t] == kw@[t],
            decreases kn - j,
        {
            if self.chars[start + j] != kw[j] {
                proof {
                    assert(self@.skip(start as int)[j as int] == self@[start + j]);
                }
                return false;
            }
            j += 1;
        }
        proof {
            assert(self@.skip(start as int) =~= kw@);
        }
        true
    }
}

/// The decision one keystroke leads to: the buffer after it, and the
/// index of the triggered snippet, if any; a trigger clears the buffer.
pub open spec fn engine_step(b: Seq<char>, c: char, snips: Seq<SnippetView>) -> (
    Seq<char>,
    Option<int>,
) {
    let b2 = buffer_step(b, c);
    match find_trigger_from(snips, b2, 0) {
        Some(i) => (Seq::empty(), Some(i)),
        None => (b2, None::<int>),
    }
}

/// A whole key sequence processed from a starting buffer: the final
/// buffer, and how many expansions were triggered.
pub open spec fn engine_run(b: Seq<char>, cs: Seq<char>, snips: Seq<SnippetView>) -> (
    Seq<char>,
    int,
)
    decreases cs.len(),
{
    if cs.len() == 0 {
        (b, 0int)
    } else {
        let step = engine_step(b, cs.first(), snips);
        let rest = engine_run(step.0, cs.drop_first(), snips);
        (
            rest.0,
            rest.1 + (if step.1 is Some {
                1int
            } else {
                0int
            }),
        )
    }
}

/// The engine's per-keystroke state: the rolling match buffer.
pub struct ExpansionEngine {
    buffer: MatchBuffer,
}

impl View for ExpansionEngine {
    type V = Seq<char>;

    closed spec fn view(&self) -> Seq<char> {
        self.buffer@
    }
}

impl ExpansionEngine {
    /// The engine's buffer stays within capacity.
    pub open spec fn wf(&self) -> bool {
        self@.len() <= 30
    }

    /// A fresh engine with an empty buffer.
    pub fn new() -> (r: ExpansionEngine)
        ensures
            r@ == Seq::<char>::empty(),
            r.wf(),
    {
        ExpansionEngine { buffer: MatchBuffer::new() }
    }

    /// The buffer's characters, oldest first.
    pub fn buffer_contents(&self) -> (r: Vec<char>)
        ensures
            r@ == self@,
    {
        self.buffer.contents()
    }

    /// Feeds one keystroke to the buffer and tests the store's keywords
    /// against its tail, per [`engine_step`]: the first keyword in store
    /// order that matches wins, and a match clears the buffer at once so
    /// the replacement text cannot retrigger it. Returns the index of the
    /// triggered snippet.
    pub fn handle_key_press(&mut self, event: InputEvent, snippets: &Vec<Snippet>) -> (r: Option<
        usize,
    >)
        requires
            old(self).wf(),
        ensures
            final(self).wf(),
            ({
                let sv = snippets@.map_values(|s: Snippet| s@);
                let InputEvent::KeyPress(c) = event;
                let step = engine_step(old(self)@, c, sv);
                &&& final(self)@ == step.0
                &&& (match r {
                    Some(i) => step.1 == Some(i as int),
                    None => step.1 is None,
                })
            }),
    {
        let InputEvent::KeyPress(c) = event;
        self.buffer.apply(c);
        let ghost sv = snippets@.map_values(|s: Snippet| s@);
        let ghost b2 = self.buffer@;
        let mut i: usize = 0;
        while i < snippets.len()
            invariant
                i <= snippets@.len(),
                sv == snippets@.map_values(|s: Snippet| s@),
                b2 == self.buffer@,
                b2 == buffer_step(old(self)@, c),
                event == InputEvent::KeyPress(c),
                self.buffer.wf(),
                find_trigger_from(sv, b2, 0) == find_trigger_from(sv, b2, i as int),
            decreases snippets@.len() - i,
        {
            let kw = crate::chars::str_to_chars(snippets[i].keyword.as_str());
            if self.buffer.ends_with(&kw) {
                self.buffer.clear();
                proof {
                    assert(sv[i as int] == snippets@[i as int]@);
                    assert(is_suffix(sv[i as int].keyword, b2));
                    assert(find_trigger_from(sv, b2, i as int) == Some(i as int));
                    assert(engine_step(old(self)@, c, sv).1 == Some(i as int));
                    assert(self@ == engine_step(old(self)@, c, sv).0);
                }
                return Some(i);
            }
            proof {
                assert(sv[i as int] == snippets@[i as int]@);
            }
            i += 1;
        }
        None
    }
}

/// What one expansion injects: this many backspaces to erase the typed
/// keyword, then the resolved text, then this many left-arrow key repeats
/// to put the cursor where the content asked.
pub struct ExpansionPlan {
    pub backspace_count: usize,
    pub text: String,
    pub chars_to_move_left: usize,
}

/// How far left the cursor must move after insertion: from the end of the
/// output back to the recorded offset.
pub open spec fn move_left_spec(content: Seq<char>, cursor_pos: Option<int>) -> int {
    match cursor_pos {
        Some(p) => {
            if p <= content.len() {
                content.len() - p
            } else {
                0
            }
        },
        None => 0,
    }
}

/// Turns a matched keyword and its resolved content into an injection
/// plan: one backspace per keyword character, the resolved text, and the
/// left moves [`move_left_spec`] gives.
pub fn plan_expansion(keyword: &str, resolved: ResolvedSnippet) -> (p: ExpansionPlan)
    ensures
        p.backspace_count == keyword@.len(),
        p.text@ == resolved.content@,
        p.chars_to_move_left as int == move_left_spec(
            resolved.content@,
            match resolved.cursor_pos {
                Some(u) => Some(u as int),
                None => None,
            },
        ),
{
    let backspace_count = keyword.unicode_len();
    let total = resolved.content.as_str().unicode_len();
    let chars_to_move_left: usize = match resolved.cursor_pos {
        Some(p) => {
            if p <= total {
                total - p
            } else {
                0
            }
        },
        None => 0,
    };
    ExpansionPlan { backspace_count, text: resolved.content, chars_to_move_left }
}

/// Every character is printable: not a control character, so neither a
/// backspace nor a buffer-clearing key.
pub open spec fn all_printable(cs: Seq<char>) -> bool {
    forall|k: int| 0 <= k < cs.len() ==> !is_control_char(#[trigger] cs[k])
}

/// Truncating to capacity before appending more text truncates to the
/// same tail as appending first.
proof fn lemma_last_cap_concat(x: Seq<char>, y: Seq<char>)
    ensures
        last_cap(last_cap(x) + y) =~= last_cap(x + y),
{
    if x.len() <= 30 {
        assert(last_cap(x) + y =~= x + y);
    } else {
        let lx = x.skip(x.len() - 30);
        if y.len() == 0 {
            assert(lx + y =~= lx);
            assert(x + y =~= x);
        } else {
            let lhs = last_cap(lx + y);
            let rhs = last_cap(x + y);
            assert forall|i: int| 0 <= i < 30 implies (lx + y).skip(y.len() as int)[i] == (x
                + y).skip(x.len() + y.len() - 30)[i] by {
                if y.len() + i < 30 {
                    assert((lx + y)[y.len() + i] == lx[y.len() + i]);
                    assert(lx[y.len() + i] == x[x.len() - 30 + y.len() + i]);
                } else {
                    assert((lx + y)[y.len() + i] == y[y.len() + i - 30]);
                }
            }
            assert(lhs =~= rhs);
        }
    }
}

/// A run never triggers a negative number of expansions.
proof fn lemma_run_count_nonneg(b: Seq<char>, cs: Seq<char>, snips: Seq<SnippetView>)
    ensures
        engine_run(b, cs, snips).1 >= 0,
    decreases cs.len(),
{
    if cs.len() > 0 {
        let step = engine_step(b, cs.first(), snips);
        lemma_run_count_nonneg(step.0, cs.drop_first(), snips);
    }
}

/// A triggerless run of printable keys folds the buffer to the tail of
/// everything typed.
proof fn lemma_run_zero(b: Seq<char>, cs: Seq<char>, snips: Seq<SnippetView>)
    requires
        b.len() <= 30,
        all_printable(cs),
        engine_run(b, cs, snips).1 == 0,
    ensures
        engine_run(b, cs, snips).0 == last_cap(b + cs),
    decreases cs.len(),
{
    if cs.len() == 0 {
        assert(b + cs =~= b);
    } else {
        let c = cs.first();
        assert(!is_control_char(c));
        let b2 = buffer_step(b, c);
        assert(b2 == last_cap(b.push(c)));
        let step = engine_step(b, c, snips);
        lemma_run_count_nonneg(step.0, cs.drop_first(), snips);
        assert(step.1 is None);
        assert(step.0 == b2);
        assert(all_printable(cs.drop_first()));
        lemma_run_zero(b2, cs.drop_first(), snips);
        assert(b.push(c) =~= b + seq![c]);
        lemma_last_cap_concat(b + seq![c], cs.drop_first());
        assert((b + seq![c]) + cs.drop_first() =~= b + cs);
    }
}

/// The buffer truncation law: a sequence of printable keystrokes that
/// never completes a trigger keyword leaves the buffer holding exactly
/// the last up-to-capacity characters typed.
pub proof fn lemma_buffer_fifo_law(cs: Seq<char>, snips: Seq<SnippetView>)
    requires
        all_printable(cs),
        engine_run(Seq::empty(), cs, snips).1 == 0,
    ensures
        engine_run(Seq::empty(), cs, snips).0 == last_cap(cs),
{
    lemma_run_zero(Seq::empty(), cs, snips);
    assert(Seq::<char>::empty() + cs =~= cs);
}

/// Processing a concatenation processes the parts in order, the buffer
/// carrying over and the trigger counts adding.
proof fn lemma_run_append(b: Seq<char>, x: Seq<char>, y: Seq<char>, snips: Seq<SnippetView>)
    ensures
        engine_run(b, x + y, snips).0 == engine_run(engine_run(b, x, snips).0, y, snips).0,
        engine_run(b, x + y, snips).1 == engine_run(b, x, snips).1 + engine_run(
            engine_run(b, x, snips).0,
            y,
            snips,
        ).1,
    decreases x.len(),
{
    if x.len() == 0 {
        assert(x + y =~= y);
    } else {
        let c = x.first();
        assert((x + y).first() == c);
        let step = engine_step(b, c, snips);
        assert((x + y).drop_first() =~= x.drop_first() + y);
        lemma_run_append(step.0, x.drop_first(), y, snips);
    }
}

/// A keyword somewhere in the remaining store makes the search succeed.
proof fn lemma_find_exists(snips: Seq<SnippetView>, b: Seq<char>, j: int)
    requires
        0 <= j <= snips.len(),
        exists|i: int| j <= i < snips.len() && is_suffix(#[trigger] snips[i].keyword, b),
    ensures
        find_trigger_from(snips, b, j) is Some,
    decreases snips.len() - j,
{
    if !is_suffix(snips[j].keyword, b) {
        let i = choose|i: int| j <= i < snips.len() && is_suffix(#[trigger] snips[i].keyword, b);
        assert(j + 1 <= i);
        lemma_find_exists(snips, b, j + 1);
    }
}

/// The single-trigger law: typing a string of printable characters that
/// ends in a stored keyword of at most the buffer's capacity, where no
/// proper prefix of the string triggers, fires exactly one expansion and
/// leaves the buffer empty.
pub proof fn lemma_single_trigger_law(s: Seq<char>, k: Seq<char>, snips: Seq<SnippetView>)
    requires
        all_printable(s),
        s.len() >= 1,
        is_suffix(k, s),
        1 <= k.len() <= 30,
        exists|i: int| 0 <= i < snips.len() && #[trigger] snips[i].keyword == k,
        forall|j: int|
            0 <= j < s.len() ==> engine_run(Seq::empty(), #[trigger] s.take(j), snips).1 == 0,
    ensures
        engine_run(Seq::empty(), s, snips).1 == 1,
        engine_run(Seq::empty(), s, snips).0 == Seq::<char>::empty(),
{
    let p = s.take(s.len() - 1);
    let c = s.last();
    assert(s =~= p + seq![c]);
    lemma_run_append(Seq::empty(), p, seq![c], snips);
    assert(engine_run(Seq::empty(), p, snips).1 == 0);
    assert(all_printable(p));
    lemma_run_zero(Seq::empty(), p, snips);
    let b1 = engine_run(Seq::empty(), p, snips).0;
    assert(Seq::<char>::empty() + p =~= p);
    assert(b1 == last_cap(p));
    assert(!is_control_char(c));
    let b2 = buffer_step(b1, c);
    assert(b2 == last_cap(b1.push(c)));
    assert(b1.push(c) =~= last_cap(p) + seq![c]);
    lemma_last_cap_concat(p, seq![c]);
    assert(b2 =~= last_cap(p + seq![c]));
    assert(b2 == last_cap(s));
    assert(is_suffix(k, b2)) by {
        if s.len() <= 30 {
            assert(b2 == s);
        } else {
            assert(b2 =~= s.skip(s.len() - 30));
            assert(b2.len() == 30);
            assert(b2.skip(b2.len() - k.len()) =~= s.skip(s.len() - k.len()));
        }
    }
    let wi = choose|i: int| 0 <= i < snips.len() && #[trigger] snips[i].keyword == k;
    assert(is_suffix(snips[wi].keyword, b2));
    lemma_find_exists(snips, b2, 0);
    let step = engine_step(b1, c, snips);
    assert(step.1 is Some);
    assert(step.0 == Seq::<char>::empty());
    let cs1 = seq![c];
    assert(cs1.len() == 1);
    assert(cs1.first() == c);
    assert(cs1.drop_first() =~= Seq::<char>::empty());
    assert(engine_step(b1, cs1.first(), snips) == step);
    assert(engine_run(step.0, cs1.drop_first(), snips) == (step.0, 0int));
    assert(engine_run(b1, cs1, snips).1 == 1);
    assert(engine_run(b1, cs1, snips).0 == Seq::<char>::empty());
}

} // verus!