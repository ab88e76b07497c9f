//! The snippet record and the import bookkeeping.
//!
//! Snippets live in an external store; the engine only reads them. A
//! snippet's trigger keyword is unique across the store, and timestamps are
//! carried as plain seconds since the Unix epoch.

use vstd::prelude::*;

verus! {

/// One snippet as the store hands it out.
#[derive(Clone, Debug)]
pub struct Snippet {
    pub id: i64,
    pub name: String,
    pub keyword: String,
    pub content: String,
    pub created_at: i64,
    pub updated_at: i64,
    pub times_used: i64,
    pub last_used_at: i64,
}

/// The mathematical shape of a snippet.
pub struct SnippetView {
    pub id: int,
    pub name: Seq<char>,
    pub keyword: Seq<char>,
    pub content: Seq<char>,
    pub created_at: int,
    pub updated_at: int,
    pub times_used: int,
    pub last_used_at: int,
}

impl View for Snippet {
    type V = SnippetView;

    open spec fn view(&self) -> SnippetView {
        SnippetView {
            id: self.id as int,
            name: self.name@,
            keyword: self.keyword@,
            content: self.content@,
            created_at: self.created_at as int,
            updated_at: self.updated_at as int,
            times_used: self.times_used as int,
            last_used_at: self.last_used_at as int,
        }
    }
}

/// One entry of an import file: a snippet to create.
#[derive(Clone, Debug)]
pub struct ImportEntry {
    pub name: String,
    pub text: String,
    pub keyword: String,
}

/// What an import did: how many snippets were added and how many were
/// skipped because their keyword was already taken.
#[derive(Clone, Debug, PartialEq, Eq, Structural)]
pub struct ImportResult {
    pub snippets_added: u32,
    pub duplicates_skipped: u32,
}

/// Whether any of the first `n` keywords equals `kw`.
pub open spec fn keyword_taken(kws: Seq<Seq<char>>, n: int, kw: Seq<char>) -> bool {
    exists|j: int| 0 <= j < n && j < kws.len() && kws[j] == kw
}

/// Checking one more keyword extends the taken set by exactly that keyword.
proof fn lemma_taken_step(kws: Seq<Seq<char>>, n: int, kw: Seq<char>)
    requires
        0 <= n < kws.len(),
    ensures
        keyword_taken(kws, n + 1, kw) == (keyword_taken(kws, n, kw) || kws[n] == kw),
{
    if keyword_taken(kws, n + 1, kw) {
        let j = choose|j: int| 0 <= j < n + 1 && j < kws.len() && kws[j] == kw;
        if j < n {
            assert(keyword_taken(kws, n, kw));
        }
    }
    if keyword_taken(kws, n, kw) {
        let j = choose|j: int| 0 <= j < n && j < kws.len() && kws[j] == kw;
        assert(0 <= j < n + 1 && j < kws.len() && kws[j] == kw);
        assert(keyword_taken(kws, n + 1, kw));
    }
    if kws[n] == kw {
        assert(0 <= n < n + 1 && n < kws.len() && kws[n] == kw);
        assert(keyword_taken(kws, n + 1, kw));
    }
}

/// How many of the first `n` entries are added when importing into a store
/// that already holds `existing` keywords: an entry is added unless its
/// keyword is already in the store or among the entries added before it.
pub open spec fn import_added(entries: Seq<Seq<char>>, existing: Seq<Seq<char>>, n: int) -> int
    decreases n,
{
    if n <= 0 {
        0
    } else {
        let kw = entries[n - 1];
        let dup = keyword_taken(existing, existing.len() as int, kw) || keyword_taken(
            entries,
            n - 1,
            kw,
        );
        import_added(entries, existing, n - 1) + if dup {
            0int
        } else {
            1int
        }
    }
}

/// The outcome of importing `entries` into a store holding `existing`
/// keywords, counting added entries and skipped duplicates.
pub open spec fn import_plan_spec(entries: Seq<Seq<char>>, existing: Seq<Seq<char>>) -> (
    int,
    int,
) {
    let added = import_added(entries, existing, entries.len() as int);
    (added, entries.len() - added)
}

/// Decides which import entries count as added and which as duplicates,
/// per [`import_plan_spec`]: a keyword present in the store, or repeated
/// within the batch, is skipped. Entry counts are capped only by the
/// vector length.
pub fn plan_import(entries: &Vec<ImportEntry>, existing: &Vec<String>) -> (r: ImportResult)
    requires
        entries@.len() <= 0xffff_ffff,
    ensures
        ({
            let ek = entries@.map_values(|e: ImportEntry| e.keyword@);
            let ex = existing@.map_values(|s: String| s@);
            &&& r.snippets_added == import_plan_spec(ek, ex).0
            &&& r.duplicates_skipped == import_plan_spec(ek, ex).1
        }),
{
    let ghost ek = entries@.map_values(|e: ImportEntry| e.keyword@);
    let ghost ex = existing@.map_values(|s: String| s@);
    let mut added: u32 = 0;
    let mut i: usize = 0;
    while i < entries.len()
        invariant
            i <= entries@.len() <= 0xffff_ffff,
            ek == entries@.map_values(|e: ImportEntry| e.keyword@),
            ex == existing@.map_values(|s: String| s@),
            added == import_added(ek, ex, i as int),
            added <= i,
        decreases entries@.len() - i,
    {
        let kw = &entries[i].keyword;
        let mut dup = false;
        let mut j: usize = 0;
        while j < existing.len()
            invariant
                j <= existing@.len(),
                ex == existing@.map_values(|s: String| s@),
                kw@ == ek[i as int],
                i < entries@.len(),
                dup == keyword_taken(ex, j as int, kw@),
            decreases existing@.len() - j,
        {
            proof {
                lemma_taken_step(ex, j as int, kw@);
            }
            if *kw == existing[j] {
                dup = true;
            }
            j += 1;
        }
        let mut k: usize = 0;
        while k < i
            invariant
                k <= i < entries@.len(),
                ek == entries@.map_values(|e: ImportEntry| e.keyword@),
                ex == existing@.map_values(|s: String| s@),
                kw@ == ek[i as int],
                dup == (keyword_taken(ex, ex.len() as int, kw@) || keyword_taken(
                    ek,
                    k as int,
                    kw@,
                )),
            decreases i - k,
        {
            proof {
                lemma_taken_step(ek, k as int, kw@);
            }
            if *kw == entries[k].keyword {
                dup = true;
            }
            k += 1;
        }
        if !dup {
            added += 1;
        }
        i += 1;
    }
    let skipped: u32 = (entries.len() as u32) - added;
    ImportResult { snippets_added: added, duplicates_skipped: skipped }
}

} // verus!