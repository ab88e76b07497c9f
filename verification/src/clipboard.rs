//! The clipboard borrow protocol and clipboard-facing records.
//!
//! Where a platform cannot inject arbitrary text directly, an expansion
//! borrows the system clipboard: it raises the internal-change signal (so
//! the clipboard-history monitor does not record the transient write),
//! snapshots the current text, writes the expansion text, lets the caller
//! paste, then restores the snapshot and lowers the signal — on every
//! path, whether the paste succeeded or not. [`ClipboardModel`] is the
//! protocol's view of that state; the process that drives the real
//! clipboard mirrors these transitions one for one.

use vstd::prelude::*;

verus! {

/// The clipboard state the protocol reasons about: the text it holds, if
/// any, and whether the current change is the engine's own.
pub struct ClipboardModel {
    pub text: Option<String>,
    pub internal_change: bool,
}

/// The mathematical shape of the clipboard state.
pub struct ClipboardView {
    pub text: Option<Seq<char>>,
    pub internal_change: bool,
}

impl View for ClipboardModel {
    type V = ClipboardView;

    open spec fn view(&self) -> ClipboardView {
        ClipboardView {
            text: match self.text {
                Some(t) => Some(t@),
                None => None,
            },
            internal_change: self.internal_change,
        }
    }
}

/// What the borrow protocol captures at entry: the text the clipboard
/// held, to be restored at exit.
pub struct ClipboardSnapshot {
    pub original_text: Option<String>,
}

/// Entering a borrow scope: the signal raised, the payload on the
/// clipboard, the old text captured.
pub open spec fn borrow_begin_spec(clip: ClipboardView, payload: Seq<char>) -> (
    ClipboardView,
    Option<Seq<char>>,
) {
    (ClipboardView { text: Some(payload), internal_change: true }, clip.text)
}

/// Leaving a borrow scope: the captured text restored (or the clipboard
/// cleared if there was none), the signal lowered.
pub open spec fn borrow_end_spec(clip: ClipboardView, snap: Option<Seq<char>>) -> ClipboardView {
    ClipboardView { text: snap, internal_change: false }
}

/// One whole expansion through the clipboard: enter, paste (which reads
/// but never changes the clipboard, whether it succeeds or fails), leave.
pub open spec fn borrow_cycle_spec(clip: ClipboardView, payload: Seq<char>) -> ClipboardView {
    let (held, snap) = borrow_begin_spec(clip, payload);
    borrow_end_spec(held, snap)
}

/// Any number of expansions through the clipboard, in order.
pub open spec fn borrow_run_spec(clip: ClipboardView, payloads: Seq<Seq<char>>) -> ClipboardView
    decreases payloads.len(),
{
    if payloads.len() == 0 {
        clip
    } else {
        borrow_run_spec(borrow_cycle_spec(clip, payloads.first()), payloads.drop_first())
    }
}

/// Enters a borrow scope, per [`borrow_begin_spec`]: raises the
/// internal-change signal, captures the clipboard text and puts the
/// expansion text there.
pub fn borrow_begin(clip: &mut ClipboardModel, payload: &String) -> (snap: ClipboardSnapshot)
    ensures
        final(clip)@ == borrow_begin_spec(old(clip)@, payload@).0,
        (match snap.original_text {
            Some(t) => borrow_begin_spec(old(clip)@, payload@).1 == Some(t@),
            None => borrow_begin_spec(old(clip)@, payload@).1 is None,
        }),
{
    let original_text = clip.text.clone();
    clip.text = Some(payload.clone());
    clip.internal_change = true;
    ClipboardSnapshot { original_text }
}

/// Leaves a borrow scope, per [`borrow_end_spec`]: restores the captured
/// text — or clears the clipboard if none was captured — and lowers the
/// signal. Runs on every exit path, a failed paste included.
pub fn borrow_end(clip: &mut ClipboardModel, snap: ClipboardSnapshot)
    ensures
        final(clip)@ == borrow_end_spec(
            old(clip)@,
            match snap.original_text {
                Some(t) => Some(t@),
                None => None,
            },
        ),
{
    clip.text = snap.original_text;
    clip.internal_change = false;
}

/// The borrow law: however many expansions run through the clipboard, and
/// whether or not their pastes succeed, the clipboard ends with exactly
/// the text it held before the first one, and the internal-change signal
/// is lowered.
pub proof fn lemma_borrow_run_restores(clip: ClipboardView, payloads: Seq<Seq<char>>)
    ensures
        borrow_run_spec(clip, payloads).text == clip.text,
        payloads.len() > 0 ==> !borrow_run_spec(clip, payloads).internal_change,
    decreases payloads.len(),
{
    if payloads.len() > 0 {
        lemma_borrow_run_restores(borrow_cycle_spec(clip, payloads.first()), payloads.drop_first());
    }
}

/// What the front end hands over to read or write the clipboard.
#[derive(Clone, Debug)]
pub struct ClipboardContent {
    pub text: Option<String>,
    pub html: Option<String>,
    pub file: Option<String>,
}

/// What a clipboard read hands back to the front end.
#[derive(Clone, Debug)]
pub struct ReadResult {
    pub text: Option<String>,
    pub html: Option<String>,
    pub file: Option<String>,
}

/// Options of a copy request.
#[derive(Clone, Debug)]
pub struct CopyOptions {
    pub concealed: Option<bool>,
}

/// One write the clipboard driver performs.
#[derive(Clone, Debug)]
pub enum ClipboardWrite {
    Text(String),
    Html(String, Option<String>),
}

/// The mathematical shape of a clipboard write.
pub enum ClipboardWriteView {
    Text(Seq<char>),
    Html(Seq<char>, Option<Seq<char>>),
}

impl View for ClipboardWrite {
    type V = ClipboardWriteView;

    open spec fn view(&self) -> ClipboardWriteView {
        match self {
            ClipboardWrite::Text(t) => ClipboardWriteView::Text(t@),
            ClipboardWrite::Html(h, t) => ClipboardWriteView::Html(
                h@,
                match t {
                    Some(tt) => Some(tt@),
                    None => None,
                },
            ),
        }
    }
}

/// Which write a copy request leads to: a file path is written as text
/// and wins over html, which wins over plain text; an empty request
/// writes nothing.
pub open spec fn plan_copy_spec(
    text: Option<Seq<char>>,
    html: Option<Seq<char>>,
    file: Option<Seq<char>>,
) -> Option<ClipboardWriteView> {
    match file {
        Some(f) => Some(ClipboardWriteView::Text(f)),
        None => match html {
            Some(h) => Some(ClipboardWriteView::Html(h, text)),
            None => match text {
                Some(t) => Some(ClipboardWriteView::Text(t)),
                None => None,
            },
        },
    }
}

/// Decides which clipboard write a copy request performs, per
/// [`plan_copy_spec`].
pub fn plan_copy(content: &ClipboardContent) -> (r: Option<ClipboardWrite>)
    ensures
        ({
            let spec = plan_copy_spec(
                match content.text {
                    Some(ref t) => Some(t@),
                    None => None,
                },
                match content.html {
                    Some(ref h) => Some(h@),
                    None => None,
                },
                match content.file {
                    Some(ref f) => Some(f@),
                    None => None,
                },
            );
            match r {
                Some(w) => spec == Some(w@),
                None => spec is None,
            }
        }),
{
    match &content.file {
        Some(f) => Some(ClipboardWrite::Text(f.clone())),
        None => match &content.html {
            Some(h) => Some(ClipboardWrite::Html(h.clone(), content.text.clone())),
            None => match &content.text {
                Some(t) => Some(ClipboardWrite::Text(t.clone())),
                None => None,
            },
        },
    }
}

/// A clipboard text that names a file: a single line starting with `/` or
/// with `file://`. A trailing newline still counts as a single line.
pub open spec fn file_reference_spec(s: Seq<char>) -> bool {
    &&& s.len() > 0
    &&& (forall|i: int| 0 <= i < s.len() - 1 ==> s[i] != '\n')
    &&& (s[0] == '/' || (s.len() >= 7 && s.subrange(0, 7) == seq![
        'f',
        'i',
        'l',
        'e',
        ':',
        '/',
        '/',
    ]))
}

/// Whether a clipboard text names a file, per [`file_reference_spec`];
/// a read reports such a text in the file slot too.
pub fn is_file_reference(text: &str) -> (r: bool)
    ensures
        r == file_reference_spec(text@),
{
    let cs = crate::chars::str_to_chars(text);
    let n = cs.len();
    if n == 0 {
        return false;
    }
    let mut i: usize = 0;
    while i < n - 1
        invariant
            1 <= n == cs@.len(),
            cs@ == text@,
            i <= n,
            forall|t: int| 0 <= t < i ==> cs@[t] != '\n',
        decreases n - i,
    {
        if cs[i] == '\n' {
            return false;
        }
        i += 1;
    }
    if cs[0] == '/' {
        return true;
    }
    if n >= 7 && cs[0] == 'f' && cs[1] == 'i' && cs[2] == 'l' && cs[3] == 'e' && cs[4] == ':'
        && cs[5] == '/' && cs[6] == '/' {
        proof {
            assert(text@.subrange(0, 7) =~= seq!['f', 'i', 'l', 'e', ':', '/', '/']);
        }
        return true;
    }
    proof {
        if text@.len() >= 7 && text@.subrange(0, 7) == seq!['f', 'i', 'l', 'e', ':', '/', '/'] {
            assert(text@[0] == 'f');
            assert(text@[1] == 'i');
            assert(text@[2] == 'l');
            assert(text@[3] == 'e');
            assert(text@[4] == ':');
            assert(text@[5] == '/');
            assert(text@[6] == '/');
        }
    }
    false
}

} // verus!