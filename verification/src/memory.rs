//! Long-term memory: the full-text query built from a message, and the rule
//! that keeps a memory from being stored twice.
//!
//! The store itself is a SQLite FTS5 table; the library decides what is
//! asked of it and what its answers mean.
use vstd::prelude::*;

use crate::text::{
    append_chars, char_is_alphanumeric, chars_of, is_alphanumeric_char, is_ascii_alphanumeric,
    string_of, words, words_exec,
};

verus! {

// ── Specifications ───────────────────────────────────────────────────────────

/// The alphanumeric characters of `w`, in order.
pub open spec fn alnum_only(w: Seq<char>) -> Seq<char>
    decreases w.len(),
{
    if w.len() == 0 {
        Seq::empty()
    } else if is_alphanumeric_char(w.last()) {
        alnum_only(w.drop_last()).push(w.last())
    } else {
        alnum_only(w.drop_last())
    }
}

/// Shortest term, in characters, that carries signal.
pub const MIN_TERM_CHARS: usize = 3;

/// The words cleaned to their alphanumeric characters, keeping those of at
/// least `MIN_TERM_CHARS` characters.
pub open spec fn query_terms(ws: Seq<Seq<char>>) -> Seq<Seq<char>>
    decreases ws.len(),
{
    if ws.len() == 0 {
        Seq::empty()
    } else {
        let clean = alnum_only(ws.last());
        if clean.len() >= MIN_TERM_CHARS {
            query_terms(ws.drop_last()).push(clean)
        } else {
            query_terms(ws.drop_last())
        }
    }
}

/// The most memories recalled for one request.
pub const MEMORY_RECALL_LIMIT: i64 = 5;

/// The separator between query terms.
pub open spec fn or_separator() -> Seq<char> {
    seq![' ', 'O', 'R', ' ']
}

/// `parts` joined with `sep` between consecutive parts (`[T]::join`).
pub open spec fn join_with(parts: Seq<Seq<char>>, sep: Seq<char>) -> Seq<char>
    decreases parts.len(),
{
    if parts.len() == 0 {
        Seq::empty()
    } else if parts.len() == 1 {
        parts[0]
    } else {
        join_with(parts.drop_last(), sep) + sep + parts.last()
    }
}

/// The FTS5 query for `input`: its cleaned terms joined by ` OR `.
pub open spec fn fts_query(input: Seq<char>) -> Seq<char> {
    join_with(query_terms(words(input)), or_separator())
}

/// The separator that asks for every term.
pub open spec fn and_separator() -> Seq<char> {
    seq![' ', 'A', 'N', 'D', ' ']
}

/// How a new memory is checked against the stored ones.
pub enum DuplicateCheck {
    /// Search for memories holding every one of its terms (this FTS5 query):
    /// the same fact, however worded or punctuated, matches.
    Match(String),
    /// It has no term to search by: look for a memory with exactly this text.
    Exact,
}

/// What inserting a memory answers.
pub enum InsertOutcome {
    /// The memory was new and has been written.
    Stored,
    /// A stored memory already matches it; nothing was written.
    AlreadyKnown,
}

impl InsertOutcome {
    /// The word the API reports: `stored` or `already known`.
    pub fn as_str(&self) -> (s: &'static str)
        ensures
            s@ == (match self {
                InsertOutcome::Stored => "stored"@,
                InsertOutcome::AlreadyKnown => "already known"@,
            }),
    {
        match self {
            InsertOutcome::Stored => "stored",
            InsertOutcome::AlreadyKnown => "already known",
        }
    }
}

// ── Executable ───────────────────────────────────────────────────────────────

/// The alphanumeric characters of `w`.
pub fn alnum_only_exec(w: &Vec<char>) -> (r: Vec<char>)
    ensures
        r@ == alnum_only(w@),
{
    let mut out: Vec<char> = Vec::new();
    let mut i: usize = 0;
    while i < w.len()
        invariant
            i <= w.len(),
            out@ == alnum_only(w@.take(i as int)),
        decreases w.len() - i,
    {
        proof {
            assert(w@.take(i + 1).drop_last() =~= w@.take(i as int));
        }
        if char_is_alphanumeric(w[i]) {
            out.push(w[i]);
        }
        i += 1;
    }
    assert(w@.take(w.len() as int) =~= w@);
    out
}

/// The cleaned terms of `input`.
fn query_terms_exec(input: &str) -> (r: Vec<Vec<char>>)
    ensures
        crate::text::views(r@) == query_terms(words(input@)),
{
    let chars = chars_of(input);
    let ws = words_exec(&chars);
    let ghost wv = crate::text::views(ws@);
    let mut out: Vec<Vec<char>> = Vec::new();
    let mut i: usize = 0;
    while i < ws.len()
        invariant
            i <= ws.len(),
            wv == crate::text::views(ws@),
            wv.len() == ws.len(),
            crate::text::views(out@) == query_terms(wv.take(i as int)),
        decreases ws.len() - i,
    {
        proof {
            assert(wv.take(i + 1).drop_last() =~= wv.take(i as int));
            assert(wv.take(i + 1).last() == ws@[i as int]@);
        }
        let clean = alnum_only_exec(&ws[i]);
        if clean.len() >= MIN_TERM_CHARS {
            let ghost before = crate::text::views(out@);
            out.push(clean);
            assert(crate::text::views(out@) =~= before.push(clean@));
        }
        i += 1;
    }
    assert(wv.take(ws.len() as int) =~= wv);
    out
}

/// `parts` joined with `sep`.
fn join_exec(parts: &Vec<Vec<char>>, sep: &Vec<char>) -> (r: Vec<char>)
    ensures
        r@ == join_with(crate::text::views(parts@), sep@),
{
    let ghost pv = crate::text::views(parts@);
    let mut out: Vec<char> = Vec::new();
    let mut i: usize = 0;
    while i < parts.len()
        invariant
            i <= parts.len(),
            pv == crate::text::views(parts@),
            pv.len() == parts.len(),
            out@ == join_with(pv.take(i as int), sep@),
        decreases parts.len() - i,
    {
        let ghost prev = pv.take(i as int);
        proof {
            assert(pv.take(i + 1).drop_last() =~= prev);
            assert(pv.take(i + 1).last() == parts@[i as int]@);
            if i == 0 {
                assert(pv.take(1) =~= seq![parts@[0]@]);
            }
        }
        if i > 0 {
            append_chars(&mut out, sep);
        }
        append_chars(&mut out, &parts[i]);
        proof {
            if i == 0 {
                assert(out@ =~= parts@[0]@);
            }
        }
        i += 1;
    }
    assert(pv.take(parts.len() as int) =~= pv);
    out
}

/// Builds an FTS5 OR query from an arbitrary string.
///
/// Strips FTS5 syntax characters (everything but letters and digits),
/// discards terms shorter than three characters (articles, prepositions),
/// and joins the rest with ` OR `, so that a memory matching any word of the
/// message is found.
pub fn sanitise_fts_query(input: &str) -> (r: String)
    ensures
        r@ == fts_query(input@),
{
    let terms = query_terms_exec(input);
    let sep = chars_of(" OR ");
    proof {
        reveal_strlit(" OR ");
        assert(sep@ =~= or_separator());
    }
    string_of(&join_exec(&terms, &sep))
}

/// How a new memory is checked for a duplicate: by an FTS5 query asking for
/// all of its terms, or, when it has none, by its exact text.
pub fn duplicate_check(content: &str) -> (r: DuplicateCheck)
    ensures
        query_terms(words(content@)).len() > 0 ==> (r matches DuplicateCheck::Match(q) && q@
            == join_with(query_terms(words(content@)), and_separator())),
        query_terms(words(content@)).len() == 0 ==> r is Exact,
{
    let terms = query_terms_exec(content);
    if terms.len() == 0 {
        DuplicateCheck::Exact
    } else {
        let sep = chars_of(" AND ");
        proof {
            reveal_strlit(" AND ");
            assert(sep@ =~= and_separator());
        }
        DuplicateCheck::Match(string_of(&join_exec(&terms, &sep)))
    }
}

/// The query a search runs, or `None` when nothing of `query` survives
/// cleaning (such a search finds nothing and is not run).
pub fn search_query(query: &str) -> (r: Option<String>)
    ensures
        match r {
            Some(q) => q@ == fts_query(query@) && q@.len() > 0,
            None => fts_query(query@).len() == 0,
        },
{
    let q = sanitise_fts_query(query);
    if q.as_str().unicode_len() == 0 {
        None
    } else {
        Some(q)
    }
}

/// Whether a new memory is written: only when the duplicate check found no
/// stored memory.
pub fn insert_outcome(hits: &Vec<String>) -> (r: InsertOutcome)
    ensures
        (r is AlreadyKnown) <==> hits.len() > 0,
{
    if hits.len() > 0 {
        InsertOutcome::AlreadyKnown
    } else {
        InsertOutcome::Stored
    }
}

// ── Laws ─────────────────────────────────────────────────────────────────────

/// Every term of a query is made of letters and digits only and is at least
/// `MIN_TERM_CHARS` characters long.
pub proof fn law_query_terms_clean(input: Seq<char>)
    ensures
        forall|k: int|
            0 <= k < query_terms(words(input)).len() ==> {
                let t = #[trigger] query_terms(words(input))[k];
                &&& t.len() >= MIN_TERM_CHARS
                &&& forall|j: int| 0 <= j < t.len() ==> is_alphanumeric_char(#[trigger] t[j])
            },
{
    lemma_query_terms_clean(words(input));
}

proof fn lemma_alnum_only_clean(w: Seq<char>)
    ensures
        forall|j: int|
            0 <= j < alnum_only(w).len() ==> is_alphanumeric_char(#[trigger] alnum_only(w)[j]),
    decreases w.len(),
{
    if w.len() > 0 {
        lemma_alnum_only_clean(w.drop_last());
        let prev = alnum_only(w.drop_last());
        assert forall|j: int| 0 <= j < alnum_only(w).len() implies is_alphanumeric_char(
            #[trigger] alnum_only(w)[j],
        ) by {
            if j < prev.len() {
                assert(alnum_only(w)[j] == prev[j]);
            }
        }
    }
}

proof fn lemma_query_terms_clean(ws: Seq<Seq<char>>)
    ensures
        forall|k: int|
            0 <= k < query_terms(ws).len() ==> {
                let t = #[trigger] query_terms(ws)[k];
                &&& t.len() >= MIN_TERM_CHARS
                &&& forall|j: int| 0 <= j < t.len() ==> is_alphanumeric_char(#[trigger] t[j])
            },
    decreases ws.len(),
{
    if ws.len() > 0 {
        lemma_query_terms_clean(ws.drop_last());
        lemma_alnum_only_clean(ws.last());
        let prev = query_terms(ws.drop_last());
        assert forall|k: int| 0 <= k < query_terms(ws).len() implies {
            let t = #[trigger] query_terms(ws)[k];
            &&& t.len() >= MIN_TERM_CHARS
            &&& forall|j: int| 0 <= j < t.len() ==> is_alphanumeric_char(#[trigger] t[j])
        } by {
            if k < prev.len() {
                assert(query_terms(ws)[k] == prev[k]);
            }
        }
    }
}

/// Every character of `s` is a space or alphanumeric.
pub open spec fn spaces_and_alnum(s: Seq<char>) -> bool {
    forall|i: int| 0 <= i < s.len() ==> (s[i] == ' ' || is_alphanumeric_char(#[trigger] s[i]))
}

proof fn lemma_join_spaces_and_alnum(parts: Seq<Seq<char>>, sep: Seq<char>)
    requires
        spaces_and_alnum(sep),
        forall|k: int| 0 <= k < parts.len() ==> spaces_and_alnum(#[trigger] parts[k]),
    ensures
        spaces_and_alnum(join_with(parts, sep)),
    decreases parts.len(),
{
    if parts.len() > 1 {
        lemma_join_spaces_and_alnum(parts.drop_last(), sep);
        let a = join_with(parts.drop_last(), sep);
        let l = parts.last();
        assert(spaces_and_alnum(parts[parts.len() - 1]));
        let j = a + sep + l;
        assert forall|i: int| 0 <= i < j.len() implies (j[i] == ' ' || is_alphanumeric_char(
            #[trigger] j[i],
        )) by {
            if i < a.len() {
                assert(j[i] == a[i]);
            } else if i < a.len() + sep.len() {
                assert(j[i] == sep[i - a.len()]);
            } else {
                assert(j[i] == l[i - a.len() - sep.len()]);
            }
        }
    } else if parts.len() == 1 {
        assert(spaces_and_alnum(parts[0]));
    }
}

/// A query holds no FTS5 syntax: its characters are the terms' letters and
/// digits and the spaces and letters of ` OR `; within ASCII, nothing but
/// letters, digits and spaces.
pub proof fn law_query_has_no_syntax(input: Seq<char>)
    ensures
        spaces_and_alnum(fts_query(input)),
        forall|i: int|
            0 <= i < fts_query(input).len() && (fts_query(input)[i] as u32) < 128 ==> (
            #[trigger] fts_query(input)[i] == ' ' || is_ascii_alphanumeric(fts_query(input)[i])),
{
    lemma_query_terms_clean(words(input));
    let terms = query_terms(words(input));
    assert forall|k: int| 0 <= k < terms.len() implies spaces_and_alnum(#[trigger] terms[k]) by {
        let t = terms[k];
        assert forall|j: int| 0 <= j < t.len() implies (t[j] == ' ' || is_alphanumeric_char(
            #[trigger] t[j],
        )) by {}
    }
    let sep = or_separator();
    assert forall|i: int| 0 <= i < sep.len() implies (sep[i] == ' ' || is_alphanumeric_char(
        #[trigger] sep[i],
    )) by {}
    lemma_join_spaces_and_alnum(terms, sep);
}

} // verus!
