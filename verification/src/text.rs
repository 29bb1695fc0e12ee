//! Character-level text primitives shared by the parsers and renderers.
//!
//! Text is handled as sequences of Unicode scalar values (`char`). Positions
//! are character positions; where a byte count matters (UTF-8 length) it is
//! stated through `encode_utf8`.
use vstd::prelude::*;
use vstd::utf8::{encode_scalar, encode_utf8};

verus! {

// ── Classification of characters (std's Unicode tables) ──────────────────────

/// `char::is_whitespace`: the Unicode `White_Space` property, held by these
/// 25 code points.
pub open spec fn is_whitespace_char(c: char) -> bool {
    let u = c as u32;
    ||| 0x9 <= u <= 0xD
    ||| u == 0x20 || u == 0x85 || u == 0xA0 || u == 0x1680
    ||| 0x2000 <= u <= 0x200A
    ||| u == 0x2028 || u == 0x2029 || u == 0x202F || u == 0x205F || u == 0x3000
}

/// What `char::is_alphanumeric` answers for a character beyond ASCII
/// (Unicode `Alphabetic` or `Numeric`).
pub uninterp spec fn is_alphanumeric_beyond_ascii(c: char) -> bool;

/// An ASCII letter or digit.
pub open spec fn is_ascii_alphanumeric(c: char) -> bool {
    ('a' <= c <= 'z') || ('A' <= c <= 'Z') || ('0' <= c <= '9')
}

/// What `char::is_alphanumeric` answers: within ASCII exactly the letters
/// and digits.
pub open spec fn is_alphanumeric_char(c: char) -> bool {
    if (c as u32) < 128 {
        is_ascii_alphanumeric(c)
    } else {
        is_alphanumeric_beyond_ascii(c)
    }
}

/// Whether `c` is whitespace, as `char::is_whitespace` answers.
pub(crate) fn char_is_whitespace(c: char) -> (b: bool)
    ensures
        b == is_whitespace_char(c),
{
    let u = c as u32;
    (0x9 <= u && u <= 0xD) || u == 0x20 || u == 0x85 || u == 0xA0 || u == 0x1680 || (0x2000 <= u
        && u <= 0x200A) || u == 0x2028 || u == 0x2029 || u == 0x202F || u == 0x205F || u == 0x3000
}

/// Calls `char::is_alphanumeric`. Within ASCII, std's documentation makes it
/// the letters and digits; beyond, the answer is named
/// `is_alphanumeric_beyond_ascii`.
#[verifier::external_body]
pub(crate) fn char_is_alphanumeric(c: char) -> (b: bool)
    ensures
        (c as u32) < 128 ==> b == is_ascii_alphanumeric(c),
        (c as u32) >= 128 ==> b == is_alphanumeric_beyond_ascii(c),
{
    c.is_alphanumeric()
}

/// Calls `String::push`, which appends one character.
#[verifier::external_body]
pub(crate) fn string_push(s: &mut String, c: char)
    ensures
        final(s)@ == old(s)@.push(c),
{
    s.push(c);
}

// ── Specifications ───────────────────────────────────────────────────────────

/// `p` occurs in `s` starting at position `i`.
pub open spec fn matches_at(s: Seq<char>, p: Seq<char>, i: int) -> bool {
    0 <= i && i + p.len() <= s.len() && s.subrange(i, i + p.len()) == p
}

pub open spec fn starts_with(s: Seq<char>, p: Seq<char>) -> bool {
    matches_at(s, p, 0)
}

pub open spec fn ends_with(s: Seq<char>, p: Seq<char>) -> bool {
    p.len() <= s.len() && matches_at(s, p, s.len() - p.len())
}

/// First position at or after `i` where `p` occurs.
pub open spec fn find_from(s: Seq<char>, p: Seq<char>, i: int) -> Option<int>
    decreases s.len() + 1 - i,
{
    if i < 0 || i + p.len() > s.len() {
        None
    } else if matches_at(s, p, i) {
        Some(i)
    } else {
        find_from(s, p, i + 1)
    }
}

/// First position where `p` occurs (`str::find`, counted in characters).
pub open spec fn find(s: Seq<char>, p: Seq<char>) -> Option<int> {
    find_from(s, p, 0)
}

pub open spec fn contains(s: Seq<char>, p: Seq<char>) -> bool {
    find(s, p) is Some
}

/// Left-to-right, non-overlapping replacement of every occurrence of a
/// non-empty pattern (`str::replace`).
pub open spec fn replace_all(s: Seq<char>, p: Seq<char>, r: Seq<char>) -> Seq<char>
    decreases s.len(),
{
    if s.len() == 0 {
        Seq::empty()
    } else if p.len() > 0 && matches_at(s, p, 0) {
        r + replace_all(s.subrange(p.len() as int, s.len() as int), p, r)
    } else {
        seq![s[0]] + replace_all(s.drop_first(), p, r)
    }
}

/// Leading whitespace removed (`str::trim_start`).
pub open spec fn trim_start(s: Seq<char>) -> Seq<char>
    decreases s.len(),
{
    if s.len() > 0 && is_whitespace_char(s[0]) {
        trim_start(s.drop_first())
    } else {
        s
    }
}

/// Trailing whitespace removed (`str::trim_end`).
pub open spec fn trim_end(s: Seq<char>) -> Seq<char>
    decreases s.len(),
{
    if s.len() > 0 && is_whitespace_char(s.last()) {
        trim_end(s.drop_last())
    } else {
        s
    }
}

/// Whitespace removed at both ends (`str::trim`).
pub open spec fn trim(s: Seq<char>) -> Seq<char> {
    trim_end(trim_start(s))
}

/// Number of bytes in the UTF-8 encoding of `c`.
pub open spec fn char_width(c: char) -> nat {
    encode_scalar(c as u32).len()
}

/// Number of bytes in the UTF-8 encoding of `s` (`str::len`).
pub open spec fn utf8_len(s: Seq<char>) -> nat {
    encode_utf8(s).len()
}

pub open spec fn digit_char(d: nat) -> char {
    if d == 0 { '0' }
    else if d == 1 { '1' }
    else if d == 2 { '2' }
    else if d == 3 { '3' }
    else if d == 4 { '4' }
    else if d == 5 { '5' }
    else if d == 6 { '6' }
    else if d == 7 { '7' }
    else if d == 8 { '8' }
    else { '9' }
}

/// Decimal notation of `n`, without leading zeros.
pub open spec fn decimal(n: nat) -> Seq<char>
    decreases n,
{
    if n < 10 {
        seq![digit_char(n)]
    } else {
        decimal(n / 10).push(digit_char(n % 10))
    }
}

// ── Lemmas ───────────────────────────────────────────────────────────────────

pub proof fn lemma_utf8_len_push(s: Seq<char>, c: char)
    ensures
        utf8_len(s.push(c)) == utf8_len(s) + char_width(c),
    decreases s.len(),
{
    if s.len() == 0 {
        assert(s.push(c).drop_first() =~= Seq::<char>::empty());
        assert(encode_utf8(Seq::<char>::empty()) =~= Seq::<u8>::empty());
    } else {
        lemma_utf8_len_push(s.drop_first(), c);
        assert(s.push(c).drop_first() =~= s.drop_first().push(c));
    }
}

pub proof fn lemma_find_from_none_before(s: Seq<char>, p: Seq<char>, i: int, j: int)
    requires
        0 <= i <= j,
        forall|k: int| i <= k < j ==> !matches_at(s, p, k),
    ensures
        find_from(s, p, i) == find_from(s, p, j),
    decreases j - i,
{
    if i < j {
        lemma_find_from_none_before(s, p, i + 1, j);
    }
}

pub proof fn lemma_find_from_result(s: Seq<char>, p: Seq<char>, i: int)
    requires
        0 <= i,
    ensures
        find_from(s, p, i) matches Some(k) ==> i <= k && matches_at(s, p, k) && forall|m: int|
            i <= m < k ==> !matches_at(s, p, m),
        find_from(s, p, i) is None ==> forall|m: int| i <= m ==> !matches_at(s, p, m),
    decreases s.len() + 1 - i,
{
    if i + p.len() > s.len() {
    } else if matches_at(s, p, i) {
    } else {
        lemma_find_from_result(s, p, i + 1);
    }
}


pub proof fn lemma_trim_start_skip(s: Seq<char>, i: int)
    requires
        0 <= i <= s.len(),
        forall|k: int| 0 <= k < i ==> is_whitespace_char(#[trigger] s[k]),
    ensures
        trim_start(s) == trim_start(s.subrange(i, s.len() as int)),
    decreases i,
{
    if i > 0 {
        assert(s.drop_first().subrange(i - 1, s.drop_first().len() as int) =~= s.subrange(
            i,
            s.len() as int,
        ));
        assert forall|k: int| 0 <= k < i - 1 implies is_whitespace_char(
            #[trigger] s.drop_first()[k],
        ) by {
            assert(s.drop_first()[k] == s[k + 1]);
        }
        lemma_trim_start_skip(s.drop_first(), i - 1);
    } else {
        assert(s.subrange(0, s.len() as int) =~= s);
    }
}

pub proof fn lemma_trim_end_skip(s: Seq<char>, j: int)
    requires
        0 <= j <= s.len(),
        forall|k: int| j <= k < s.len() ==> is_whitespace_char(#[trigger] s[k]),
    ensures
        trim_end(s) == trim_end(s.subrange(0, j)),
    decreases s.len() - j,
{
    if j < s.len() {
        assert(s.drop_last().subrange(0, j) =~= s.subrange(0, j));
        assert forall|k: int| j <= k < s.drop_last().len() implies is_whitespace_char(
            #[trigger] s.drop_last()[k],
        ) by {
            assert(s.drop_last()[k] == s[k]);
        }
        lemma_trim_end_skip(s.drop_last(), j);
    } else {
        assert(s.subrange(0, s.len() as int) =~= s);
    }
}

/// What `trim_start` keeps is a suffix of the text.
pub proof fn lemma_trim_start_offset(s: Seq<char>) -> (k: int)
    ensures
        0 <= k <= s.len(),
        trim_start(s) == s.subrange(k, s.len() as int),
    decreases s.len(),
{
    if s.len() > 0 && is_whitespace_char(s[0]) {
        let k = lemma_trim_start_offset(s.drop_first());
        assert(s.drop_first().subrange(k, s.drop_first().len() as int) =~= s.subrange(
            k + 1,
            s.len() as int,
        ));
        k + 1
    } else {
        assert(s.subrange(0, s.len() as int) =~= s);
        0
    }
}

/// What `trim_end` keeps is a prefix of the text.
pub proof fn lemma_trim_end_offset(s: Seq<char>) -> (k: int)
    ensures
        0 <= k <= s.len(),
        trim_end(s) == s.subrange(0, k),
    decreases s.len(),
{
    if s.len() > 0 && is_whitespace_char(s.last()) {
        let k = lemma_trim_end_offset(s.drop_last());
        assert(s.drop_last().subrange(0, k) =~= s.subrange(0, k));
        k
    } else {
        assert(s.subrange(0, s.len() as int) =~= s);
        s.len() as int
    }
}

/// A pattern found in a part of a text is found in the text.
pub proof fn lemma_contains_subrange(s: Seq<char>, a: int, b: int, p: Seq<char>)
    requires
        0 <= a <= b <= s.len(),
        contains(s.subrange(a, b), p),
    ensures
        contains(s, p),
{
    let t = s.subrange(a, b);
    lemma_find_from_result(t, p, 0);
    let j = find(t, p)->0;
    assert(matches_at(t, p, j));
    assert(s.subrange(a + j, a + j + p.len()) =~= t.subrange(j, j + p.len()));
    assert(matches_at(s, p, a + j));
    lemma_find_from_result(s, p, 0);
}

/// A pattern missing from a text is missing from the text trimmed.
pub proof fn lemma_trim_lacks(s: Seq<char>, p: Seq<char>)
    requires
        !contains(s, p),
    ensures
        !contains(trim(s), p),
{
    let k = lemma_trim_start_offset(s);
    let t = trim_start(s);
    let j = lemma_trim_end_offset(t);
    assert(trim(s) =~= s.subrange(k, k + j));
    if contains(trim(s), p) {
        lemma_contains_subrange(s, k, k + j, p);
    }
}

/// Leading whitespace before text that starts with a non-whitespace
/// character is all `trim_start` removes.
pub proof fn lemma_trim_start_append(a: Seq<char>, b: Seq<char>)
    requires
        b.len() > 0,
        !is_whitespace_char(b[0]),
    ensures
        trim_start(a + b) == trim_start(a) + b,
    decreases a.len(),
{
    if a.len() == 0 {
        assert(a + b =~= b);
    } else if is_whitespace_char(a[0]) {
        assert((a + b).drop_first() =~= a.drop_first() + b);
        lemma_trim_start_append(a.drop_first(), b);
    } else {
        assert((a + b)[0] == a[0]);
    }
}

/// Trailing whitespace after text that ends with a non-whitespace character
/// is all `trim_end` removes.
pub proof fn lemma_trim_end_append(a: Seq<char>, b: Seq<char>)
    requires
        a.len() > 0,
        !is_whitespace_char(a.last()),
    ensures
        trim_end(a + b) == a + trim_end(b),
    decreases b.len(),
{
    if b.len() == 0 {
        assert(a + b =~= a);
        assert(a + trim_end(b) =~= a);
    } else if is_whitespace_char(b.last()) {
        assert((a + b).drop_last() =~= a + b.drop_last());
        lemma_trim_end_append(a, b.drop_last());
    } else {
        assert((a + b).last() == b.last());
    }
}

/// `trim_start` drops exactly the whitespace before the first
/// non-whitespace character.
pub proof fn lemma_trim_start_split(s: Seq<char>) -> (i: int)
    ensures
        0 <= i <= s.len(),
        trim_start(s) == s.subrange(i, s.len() as int),
        forall|k: int| 0 <= k < i ==> is_whitespace_char(#[trigger] s[k]),
        i < s.len() ==> !is_whitespace_char(s[i]),
    decreases s.len(),
{
    if s.len() > 0 && is_whitespace_char(s[0]) {
        let t = s.drop_first();
        let i = lemma_trim_start_split(t);
        assert(t.subrange(i, t.len() as int) =~= s.subrange(i + 1, s.len() as int));
        assert forall|k: int| 0 <= k < i + 1 implies is_whitespace_char(#[trigger] s[k]) by {
            if k > 0 {
                assert(s[k] == t[k - 1]);
            }
        }
        if i + 1 < s.len() {
            assert(s[i + 1] == t[i]);
        }
        i + 1
    } else {
        assert(s.subrange(0, s.len() as int) =~= s);
        0
    }
}

/// `trim_end` drops exactly the whitespace after the last non-whitespace
/// character.
pub proof fn lemma_trim_end_split(s: Seq<char>) -> (j: int)
    ensures
        0 <= j <= s.len(),
        trim_end(s) == s.subrange(0, j),
        forall|k: int| j <= k < s.len() ==> is_whitespace_char(#[trigger] s[k]),
        j > 0 ==> !is_whitespace_char(s[j - 1]),
    decreases s.len(),
{
    if s.len() > 0 && is_whitespace_char(s.last()) {
        let t = s.drop_last();
        let j = lemma_trim_end_split(t);
        assert(t.subrange(0, j) =~= s.subrange(0, j));
        assert forall|k: int| j <= k < s.len() implies is_whitespace_char(#[trigger] s[k]) by {
            if k < s.len() - 1 {
                assert(s[k] == t[k]);
            }
        }
        if j > 0 {
            assert(s[j - 1] == t[j - 1]);
        }
        j
    } else {
        assert(s.subrange(0, s.len() as int) =~= s);
        s.len() as int
    }
}

/// Trimming a text whose leading whitespace is already gone gives the text
/// trimmed.
pub proof fn lemma_trim_of_trim_start(s: Seq<char>)
    ensures
        trim(trim_start(s)) == trim(s),
{
    let i = lemma_trim_start_split(s);
    let t = s.subrange(i, s.len() as int);
    if i < s.len() {
        assert(t[0] == s[i]);
    }
    assert(trim_start(t) == t);
}

/// Trimming a text whose trailing whitespace is already gone gives the text
/// trimmed.
pub proof fn lemma_trim_of_trim_end(s: Seq<char>)
    ensures
        trim(trim_end(s)) == trim(s),
{
    let i = lemma_trim_start_split(s);
    let j = lemma_trim_end_split(s);
    if i == s.len() {
        if j > 0 {
            assert(is_whitespace_char(s[j - 1]));
        }
        assert(s.subrange(0, j) =~= Seq::<char>::empty());
        assert(s.subrange(i, s.len() as int) =~= Seq::<char>::empty());
        assert(trim_start(Seq::<char>::empty()) =~= Seq::<char>::empty());
        assert(trim_end(Seq::<char>::empty()) =~= Seq::<char>::empty());
    } else {
        if j <= i {
            assert(is_whitespace_char(s[i]));
        }
        let mid = s.subrange(i, j);
        assert(mid.len() > 0);
        assert(mid[0] == s[i]);
        assert(mid.last() == s[j - 1]);
        assert(trim_start(mid) == mid);
        assert(trim_end(mid) == mid);
        let w = s.subrange(i, s.len() as int);
        assert forall|k: int| j - i <= k < w.len() implies is_whitespace_char(#[trigger] w[k]) by {
            assert(w[k] == s[i + k]);
        }
        lemma_trim_end_skip(w, j - i);
        assert(w.subrange(0, j - i) =~= mid);
        let h = s.subrange(0, j);
        assert forall|k: int| 0 <= k < i implies is_whitespace_char(#[trigger] h[k]) by {
            assert(h[k] == s[k]);
        }
        lemma_trim_start_skip(h, i);
        assert(h.subrange(i, h.len() as int) =~= mid);
    }
}

/// `s` without leading whitespace.
pub fn trim_start_exec(s: &Vec<char>) -> (r: Vec<char>)
    ensures
        r@ == trim_start(s@),
{
    let mut i: usize = 0;
    while i < s.len() && char_is_whitespace(s[i])
        invariant
            i <= s.len(),
            forall|k: int| 0 <= k < i ==> is_whitespace_char(#[trigger] s@[k]),
        decreases s.len() - i,
    {
        i += 1;
    }
    proof {
        lemma_trim_start_skip(s@, i as int);
    }
    slice_chars(s, i, s.len())
}

/// `s` without trailing whitespace.
pub fn trim_end_exec(s: &Vec<char>) -> (r: Vec<char>)
    ensures
        r@ == trim_end(s@),
{
    let mut j: usize = s.len();
    while j > 0 && char_is_whitespace(s[j - 1])
        invariant
            j <= s.len(),
            forall|k: int| j <= k < s.len() ==> is_whitespace_char(#[trigger] s@[k]),
        decreases j,
    {
        j -= 1;
    }
    proof {
        lemma_trim_end_skip(s@, j as int);
    }
    slice_chars(s, 0, j)
}

/// `s` without whitespace at either end.
pub fn trim_exec(s: &Vec<char>) -> (r: Vec<char>)
    ensures
        r@ == trim(s@),
{
    let t = trim_start_exec(s);
    trim_end_exec(&t)
}

/// Number of bytes in the UTF-8 encoding of `c` (`char::len_utf8`).
pub fn char_width_exec(c: char) -> (w: usize)
    ensures
        w == char_width(c),
        1 <= w <= 4,
{
    proof {
        vstd::utf8::char_is_scalar(c);
    }
    let u = c as u32;
    if u <= 0x7F {
        1
    } else if u <= 0x7FF {
        2
    } else if u <= 0xFFFF {
        3
    } else {
        4
    }
}

pub fn digit_char_exec(d: u128) -> (c: char)
    requires
        d < 10,
    ensures
        c == digit_char(d as nat),
{
    if d == 0 { '0' }
    else if d == 1 { '1' }
    else if d == 2 { '2' }
    else if d == 3 { '3' }
    else if d == 4 { '4' }
    else if d == 5 { '5' }
    else if d == 6 { '6' }
    else if d == 7 { '7' }
    else if d == 8 { '8' }
    else { '9' }
}

/// Decimal notation of `n` (`to_string` of an unsigned integer).
pub fn decimal_exec(n: u128) -> (r: Vec<char>)
    ensures
        r@ == decimal(n as nat),
    decreases n,
{
    if n < 10 {
        let mut r: Vec<char> = Vec::new();
        r.push(digit_char_exec(n));
        assert(r@ =~= seq![digit_char(n as nat)]);
        r
    } else {
        let mut r = decimal_exec(n / 10);
        r.push(digit_char_exec(n % 10));
        r
    }
}

/// Whether every character of `s` is whitespace (or `s` is empty).
pub open spec fn all_whitespace(s: Seq<char>) -> bool {
    forall|k: int| 0 <= k < s.len() ==> is_whitespace_char(#[trigger] s[k])
}

// ── Executable primitives ────────────────────────────────────────────────────

/// The characters of `s`.
pub fn chars_of(s: &str) -> (v: Vec<char>)
    ensures
        v@ == s@,
{
    let mut v: Vec<char> = Vec::new();
    for c in it: s.chars()
        invariant
            v@ == it.seq().take(it.index() as int),
            it.seq() == s@,
    {
        v.push(c);
    }
    v
}

/// A `String` holding the given characters.
pub fn string_of(v: &Vec<char>) -> (s: String)
    ensures
        s@ == v@,
{
    let mut s = String::new();
    let mut i: usize = 0;
    while i < v.len()
        invariant
            i <= v.len(),
            s@ == v@.take(i as int),
        decreases v.len() - i,
    {
        string_push(&mut s, v[i]);
        assert(v@.take(i + 1) =~= v@.take(i as int).push(v@[i as int]));
        i += 1;
    }
    assert(v@.take(v.len() as int) =~= v@);
    s
}

/// The characters of `v` from `start` (inclusive) to `end` (exclusive).
pub fn slice_chars(v: &Vec<char>, start: usize, end: usize) -> (r: Vec<char>)
    requires
        start <= end <= v.len(),
    ensures
        r@ == v@.subrange(start as int, end as int),
{
    let mut r: Vec<char> = Vec::new();
    let mut i = start;
    while i < end
        invariant
            start <= i <= end <= v.len(),
            r@ == v@.subrange(start as int, i as int),
        decreases end - i,
    {
        r.push(v[i]);
        assert(v@.subrange(start as int, i + 1) =~= v@.subrange(start as int, i as int).push(
            v@[i as int],
        ));
        i += 1;
    }
    r
}

/// `a` followed by `b`.
pub fn concat_chars(a: &Vec<char>, b: &Vec<char>) -> (r: Vec<char>)
    ensures
        r@ == a@ + b@,
{
    let mut r: Vec<char> = Vec::new();
    let mut i: usize = 0;
    while i < a.len()
        invariant
            i <= a.len(),
            r@ == a@.take(i as int),
        decreases a.len() - i,
    {
        r.push(a[i]);
        assert(a@.take(i + 1) =~= a@.take(i as int).push(a@[i as int]));
        i += 1;
    }
    assert(a@.take(a.len() as int) =~= a@);
    let mut j: usize = 0;
    while j < b.len()
        invariant
            j <= b.len(),
            r@ == a@ + b@.take(j as int),
        decreases b.len() - j,
    {
        r.push(b[j]);
        assert(b@.take(j + 1) =~= b@.take(j as int).push(b@[j as int]));
        j += 1;
    }
    assert(b@.take(b.len() as int) =~= b@);
    r
}

/// Appends the characters of `r` to `out`.
pub fn append_chars(out: &mut Vec<char>, r: &Vec<char>)
    ensures
        final(out)@ == old(out)@ + r@,
{
    let ghost before = out@;
    let mut k: usize = 0;
    while k < r.len()
        invariant
            k <= r.len(),
            out@ == before + r@.take(k as int),
        decreases r.len() - k,
    {
        out.push(r[k]);
        assert(r@.take(k + 1) =~= r@.take(k as int).push(r@[k as int]));
        k += 1;
    }
    assert(r@.take(r.len() as int) =~= r@);
}

/// Whether `p` occurs in `s` at position `i`.
pub fn matches_at_exec(s: &Vec<char>, p: &Vec<char>, i: usize) -> (b: bool)
    ensures
        b == matches_at(s@, p@, i as int),
{
    if i > s.len() || p.len() > s.len() - i {
        return false;
    }
    let mut k: usize = 0;
    while k < p.len()
        invariant
            i + p.len() <= s.len(),
            k <= p.len(),
            forall|m: int| 0 <= m < k ==> s@[i + m] == p@[m],
        decreases p.len() - k,
    {
        if s[i + k] != p[k] {
            assert(s@.subrange(i as int, i + p.len())[k as int] != p@[k as int]);
            return false;
        }
        k += 1;
    }
    assert(s@.subrange(i as int, i + p.len()) =~= p@);
    true
}

pub fn starts_with_exec(s: &Vec<char>, p: &Vec<char>) -> (b: bool)
    ensures
        b == starts_with(s@, p@),
{
    matches_at_exec(s, p, 0)
}

pub fn ends_with_exec(s: &Vec<char>, p: &Vec<char>) -> (b: bool)
    ensures
        b == ends_with(s@, p@),
{
    if p.len() > s.len() {
        false
    } else {
        matches_at_exec(s, p, s.len() - p.len())
    }
}

/// First position at or after `start` where `p` occurs.
pub fn find_from_exec(s: &Vec<char>, p: &Vec<char>, start: usize) -> (r: Option<usize>)
    ensures
        r matches Some(k) ==> find_from(s@, p@, start as int) == Some(k as int),
        r matches Some(k) ==> start <= k && k + p.len() <= s.len() && matches_at(s@, p@, k as int),
        r is None ==> find_from(s@, p@, start as int) is None,
{
    if p.len() > s.len() {
        assert(find_from(s@, p@, start as int) is None);
        return None;
    }
    let last = s.len() - p.len();
    let mut i = start;
    while i <= last
        invariant
            last + p.len() == s.len(),
            start <= i,
            find_from(s@, p@, start as int) == find_from(s@, p@, i as int),
        decreases last + 1 - i,
    {
        if matches_at_exec(s, p, i) {
            proof {
                lemma_find_from_result(s@, p@, start as int);
            }
            return Some(i);
        }
        if i == last {
            assert(find_from(s@, p@, i + 1) is None);
            return None;
        }
        i += 1;
    }
    None
}

pub fn find_exec(s: &Vec<char>, p: &Vec<char>) -> (r: Option<usize>)
    ensures
        r matches Some(k) ==> find(s@, p@) == Some(k as int),
        r matches Some(k) ==> k + p.len() <= s.len() && matches_at(s@, p@, k as int),
        r is None ==> find(s@, p@) is None,
{
    find_from_exec(s, p, 0)
}

pub fn contains_exec(s: &Vec<char>, p: &Vec<char>) -> (b: bool)
    ensures
        b == contains(s@, p@),
{
    find_exec(s, p).is_some()
}

/// Every occurrence of the non-empty pattern `p` replaced by `r`.
pub fn replace_all_exec(s: &Vec<char>, p: &Vec<char>, r: &Vec<char>) -> (out: Vec<char>)
    requires
        p.len() > 0,
    ensures
        out@ == replace_all(s@, p@, r@),
{
    let mut out: Vec<char> = Vec::new();
    let mut i: usize = 0;
    assert(s@.subrange(0, s.len() as int) =~= s@);
    assert(out@ + replace_all(s@, p@, r@) =~= replace_all(s@, p@, r@));
    while i < s.len()
        invariant
            i <= s.len(),
            p.len() > 0,
            out@ + replace_all(s@.subrange(i as int, s.len() as int), p@, r@) == replace_all(
                s@,
                p@,
                r@,
            ),
        decreases s.len() - i,
    {
        let ghost rest = s@.subrange(i as int, s.len() as int);
        if matches_at_exec(s, p, i) {
            proof {
                assert(rest.subrange(0, p.len() as int) =~= s@.subrange(i as int, i + p.len()));
                assert(matches_at(rest, p@, 0));
                assert(rest.subrange(p.len() as int, rest.len() as int) =~= s@.subrange(
                    i + p.len(),
                    s.len() as int,
                ));
            }
            let ghost before = out@;
            append_chars(&mut out, r);
            proof {
                let tail = replace_all(s@.subrange(i + p.len(), s.len() as int), p@, r@);
                assert(replace_all(rest, p@, r@) == r@ + tail);
                assert(out@ + tail =~= before + (r@ + tail));
            }
            i += p.len();
        } else {
            proof {
                if p.len() <= rest.len() {
                    assert(rest.subrange(0, p.len() as int) =~= s@.subrange(
                        i as int,
                        i + p.len(),
                    ));
                }
                assert(!matches_at(rest, p@, 0));
                assert(rest.drop_first() =~= s@.subrange(i + 1, s.len() as int));
            }
            let ghost before = out@;
            out.push(s[i]);
            proof {
                let tail = replace_all(s@.subrange(i + 1, s.len() as int), p@, r@);
                assert(replace_all(rest, p@, r@) == seq![s@[i as int]] + tail);
                assert(out@ + tail =~= before + (seq![s@[i as int]] + tail));
            }
            i += 1;
        }
    }
    assert(s@.subrange(s.len() as int, s.len() as int) =~= Seq::<char>::empty());
    assert(out@ + Seq::<char>::empty() =~= out@);
    out
}


// ── Splitting ────────────────────────────────────────────────────────────────

/// The pieces of `s` between occurrences of `c` (`str::split(c)`); there is
/// always at least one piece, possibly empty.
pub open spec fn split_char(s: Seq<char>, c: char) -> Seq<Seq<char>>
    decreases s.len(),
{
    if s.len() == 0 {
        seq![Seq::empty()]
    } else {
        let init = split_char(s.drop_last(), c);
        if s.last() == c {
            init.push(Seq::empty())
        } else {
            init.update(init.len() - 1, init.last().push(s.last()))
        }
    }
}

/// The pieces of `s` between whitespace characters, empty ones included
/// (`str::split(char::is_whitespace)`).
pub open spec fn split_ws(s: Seq<char>) -> Seq<Seq<char>>
    decreases s.len(),
{
    if s.len() == 0 {
        seq![Seq::empty()]
    } else {
        let init = split_ws(s.drop_last());
        if is_whitespace_char(s.last()) {
            init.push(Seq::empty())
        } else {
            init.update(init.len() - 1, init.last().push(s.last()))
        }
    }
}

/// The non-empty pieces, in order.
pub open spec fn non_empty(pieces: Seq<Seq<char>>) -> Seq<Seq<char>>
    decreases pieces.len(),
{
    if pieces.len() == 0 {
        Seq::empty()
    } else if pieces.last().len() == 0 {
        non_empty(pieces.drop_last())
    } else {
        non_empty(pieces.drop_last()).push(pieces.last())
    }
}

/// The whitespace-separated words of `s` (`str::split_whitespace`).
pub open spec fn words(s: Seq<char>) -> Seq<Seq<char>> {
    non_empty(split_ws(s))
}

pub proof fn lemma_split_char_len(s: Seq<char>, c: char)
    ensures
        split_char(s, c).len() >= 1,
    decreases s.len(),
{
    if s.len() > 0 {
        lemma_split_char_len(s.drop_last(), c);
    }
}

pub proof fn lemma_split_ws_len(s: Seq<char>)
    ensures
        split_ws(s).len() >= 1,
    decreases s.len(),
{
    if s.len() > 0 {
        lemma_split_ws_len(s.drop_last());
    }
}

pub open spec fn views(v: Seq<Vec<char>>) -> Seq<Seq<char>> {
    v.map_values(|x: Vec<char>| x@)
}

/// `str::split(c)`, each piece as characters.
pub fn split_char_exec(s: &Vec<char>, c: char) -> (r: Vec<Vec<char>>)
    ensures
        views(r@) == split_char(s@, c),
{
    let mut pieces: Vec<Vec<char>> = Vec::new();
    let mut cur: Vec<char> = Vec::new();
    let mut i: usize = 0;
    assert(s@.take(0) =~= Seq::<char>::empty());
    assert(views(pieces@).push(cur@) =~= seq![Seq::<char>::empty()]);
    while i < s.len()
        invariant
            i <= s.len(),
            views(pieces@).push(cur@) == split_char(s@.take(i as int), c),
        decreases s.len() - i,
    {
        let ghost t = s@.take(i + 1);
        proof {
            assert(t.drop_last() =~= s@.take(i as int));
            assert(t.last() == s@[i as int]);
        }
        if s[i] == c {
            let ghost old_pieces = views(pieces@);
            let done = cur;
            pieces.push(done);
            cur = Vec::new();
            assert(views(pieces@) =~= old_pieces.push(done@));
            assert(views(pieces@).push(cur@) =~= split_char(t, c));
        } else {
            let ghost old_cur = cur@;
            cur.push(s[i]);
            assert(views(pieces@).push(cur@) =~= views(pieces@).push(old_cur).update(
                views(pieces@).len() as int,
                old_cur.push(s@[i as int]),
            ));
        }
        i += 1;
    }
    assert(s@.take(s.len() as int) =~= s@);
    let ghost before = views(pieces@);
    pieces.push(cur);
    assert(views(pieces@) =~= before.push(cur@));
    pieces
}

/// `str::split(char::is_whitespace)`, each piece as characters.
pub fn split_ws_exec(s: &Vec<char>) -> (r: Vec<Vec<char>>)
    ensures
        views(r@) == split_ws(s@),
{
    let mut pieces: Vec<Vec<char>> = Vec::new();
    let mut cur: Vec<char> = Vec::new();
    let mut i: usize = 0;
    assert(s@.take(0) =~= Seq::<char>::empty());
    assert(views(pieces@).push(cur@) =~= seq![Seq::<char>::empty()]);
    while i < s.len()
        invariant
            i <= s.len(),
            views(pieces@).push(cur@) == split_ws(s@.take(i as int)),
        decreases s.len() - i,
    {
        let ghost t = s@.take(i + 1);
        proof {
            assert(t.drop_last() =~= s@.take(i as int));
            assert(t.last() == s@[i as int]);
        }
        if char_is_whitespace(s[i]) {
            let ghost old_pieces = views(pieces@);
            let done = cur;
            pieces.push(done);
            cur = Vec::new();
            assert(views(pieces@) =~= old_pieces.push(done@));
            assert(views(pieces@).push(cur@) =~= split_ws(t));
        } else {
            let ghost old_cur = cur@;
            cur.push(s[i]);
            assert(views(pieces@).push(cur@) =~= views(pieces@).push(old_cur).update(
                views(pieces@).len() as int,
                old_cur.push(s@[i as int]),
            ));
        }
        i += 1;
    }
    assert(s@.take(s.len() as int) =~= s@);
    let ghost before = views(pieces@);
    pieces.push(cur);
    assert(views(pieces@) =~= before.push(cur@));
    pieces
}

/// `str::split_whitespace`, each word as characters.
pub fn words_exec(s: &Vec<char>) -> (r: Vec<Vec<char>>)
    ensures
        views(r@) == words(s@),
{
    let pieces = split_ws_exec(s);
    let mut out: Vec<Vec<char>> = Vec::new();
    let mut i: usize = 0;
    while i < pieces.len()
        invariant
            i <= pieces.len(),
            views(out@) == non_empty(views(pieces@).take(i as int)),
        decreases pieces.len() - i,
    {
        let ghost t = views(pieces@).take(i + 1);
        proof {
            assert(t.drop_last() =~= views(pieces@).take(i as int));
            assert(t.last() == pieces@[i as int]@);
        }
        if pieces[i].len() > 0 {
            let ghost before = views(out@);
            out.push(clone_chars(&pieces[i]));
            assert(views(out@) =~= before.push(pieces@[i as int]@));
        }
        i += 1;
    }
    assert(views(pieces@).take(pieces.len() as int) =~= views(pieces@));
    out
}

/// A copy of `v`.
pub fn clone_chars(v: &Vec<char>) -> (r: Vec<char>)
    ensures
        r@ == v@,
{
    slice_chars(v, 0, v.len())
}

// ── Integers ─────────────────────────────────────────────────────────────────

pub open spec fn is_digit(c: char) -> bool {
    '0' <= c <= '9'
}

pub open spec fn all_digits(s: Seq<char>) -> bool {
    forall|i: int| 0 <= i < s.len() ==> is_digit(#[trigger] s[i])
}

/// The value of a string of decimal digits.
pub open spec fn digits_value(s: Seq<char>) -> nat
    decreases s.len(),
{
    if s.len() == 0 {
        0
    } else {
        digits_value(s.drop_last()) * 10 + ((s.last() as u32 - '0' as u32) as nat)
    }
}

/// The integer that `str::parse` reads from `s`: an optional sign (`-` only
/// when `signed`) followed by one or more decimal digits. Range is not checked.
pub open spec fn parse_integer(s: Seq<char>, signed: bool) -> Option<int> {
    if s.len() > 0 && (s[0] == '+' || (signed && s[0] == '-')) {
        let rest = s.drop_first();
        if rest.len() > 0 && all_digits(rest) {
            Some(if s[0] == '-' { -(digits_value(rest) as int) } else { digits_value(rest) as int })
        } else {
            None
        }
    } else if s.len() > 0 && all_digits(s) {
        Some(digits_value(s) as int)
    } else {
        None
    }
}

/// `str::parse::<i64>`.
pub open spec fn parse_i64(s: Seq<char>) -> Option<i64> {
    match parse_integer(s, true) {
        Some(v) => if i64::MIN <= v <= i64::MAX { Some(v as i64) } else { None },
        None => None,
    }
}

/// `str::parse::<u16>`.
pub open spec fn parse_u16(s: Seq<char>) -> Option<u16> {
    match parse_integer(s, false) {
        Some(v) => if 0 <= v <= u16::MAX { Some(v as u16) } else { None },
        None => None,
    }
}

pub proof fn lemma_digits_value_monotone(s: Seq<char>, k: int)
    requires
        0 <= k <= s.len(),
        all_digits(s),
    ensures
        digits_value(s.take(k)) <= digits_value(s),
    decreases s.len() - k,
{
    if k < s.len() {
        lemma_digits_value_monotone(s, k + 1);
        assert(s.take(k + 1).drop_last() =~= s.take(k));
        assert(is_digit(s[k]));
    } else {
        assert(s.take(k) =~= s);
    }
}

/// The decimal notation of `n` is a non-empty run of digits that reads back
/// as `n`.
pub proof fn lemma_decimal_digits(n: nat)
    ensures
        decimal(n).len() > 0,
        all_digits(decimal(n)),
        digits_value(decimal(n)) == n,
    decreases n,
{
    if n < 10 {
        let d = decimal(n);
        assert(d.drop_last() =~= Seq::<char>::empty());
        assert(digit_char(n) as u32 - '0' as u32 == n);
        assert(d.last() == digit_char(n));
        assert(digits_value(d.drop_last()) == 0);
        assert(digits_value(d) == digits_value(d.drop_last()) * 10 + n);
    } else {
        lemma_decimal_digits(n / 10);
        let d = decimal(n);
        assert(d.drop_last() =~= decimal(n / 10));
        assert(digit_char(n % 10) as u32 - '0' as u32 == n % 10);
        assert(d.last() == digit_char(n % 10));
        assert((n / 10) * 10 + n % 10 == n) by (nonlinear_arith);
        assert(digits_value(d) == digits_value(decimal(n / 10)) * 10 + n % 10);
        assert forall|i: int| 0 <= i < d.len() implies is_digit(#[trigger] d[i]) by {
            if i < d.len() - 1 {
                assert(d[i] == decimal(n / 10)[i]);
            }
        }
    }
}

/// `str::parse::<u16>` reads back the decimal notation of a `u16`.
pub proof fn lemma_parse_u16_decimal(p: u16)
    ensures
        parse_u16(decimal(p as nat)) == Some(p),
{
    lemma_decimal_digits(p as nat);
    assert(is_digit(decimal(p as nat)[0]));
}

/// The value of the digits `s[start..]`, or `None` when one of them is not
/// a digit, the run is empty, or the value exceeds `bound`.
fn digits_upto(s: &Vec<char>, start: usize, bound: u64) -> (r: Option<u64>)
    requires
        start <= s.len(),
        bound <= 0x8000_0000_0000_0000u64,
    ensures
        ({
            let d = s@.subrange(start as int, s.len() as int);
            &&& r matches Some(v) ==> d.len() > 0 && all_digits(d) && v == digits_value(d) && v
                <= bound
            &&& r is None ==> !(d.len() > 0 && all_digits(d) && digits_value(d) <= bound)
        }),
{
    let ghost d = s@.subrange(start as int, s.len() as int);
    if start == s.len() {
        return None;
    }
    let mut acc: u64 = 0;
    let mut i = start;
    while i < s.len()
        invariant
            start <= i <= s.len(),
            d == s@.subrange(start as int, s.len() as int),
            bound <= 0x8000_0000_0000_0000u64,
            all_digits(d.take(i - start)),
            acc == digits_value(d.take(i - start)),
            acc <= bound,
        decreases s.len() - i,
    {
        let c = s[i];
        if !('0' <= c && c <= '9') {
            assert(d[i - start] == c);
            return None;
        }
        proof {
            assert(d.take(i - start + 1).drop_last() =~= d.take(i - start));
            assert(d.take(i - start + 1).last() == c);
        }
        let dv = (c as u32 - '0' as u32) as u64;
        let next: u128 = acc as u128 * 10 + dv as u128;
        if next > bound as u128 {
            proof {
                assert(all_digits(d.take(i - start + 1)));
                if all_digits(d) {
                    lemma_digits_value_monotone(d, i - start + 1);
                }
            }
            return None;
        }
        acc = next as u64;
        i += 1;
    }
    assert(d.take(i - start) =~= d);
    Some(acc)
}

/// `str::parse::<i64>` on characters.
pub fn parse_i64_exec(s: &Vec<char>) -> (r: Option<i64>)
    ensures
        r == parse_i64(s@),
{
    if s.len() == 0 {
        return None;
    }
    let first = s[0];
    if first == '+' || first == '-' {
        let neg = first == '-';
        let bound: u64 = if neg { 0x8000_0000_0000_0000 } else { 0x7FFF_FFFF_FFFF_FFFF };
        let ghost rest = s@.drop_first();
        assert(s@.subrange(1, s.len() as int) =~= rest);
        match digits_upto(s, 1, bound) {
            Some(v) => {
                if neg {
                    if v == 0x8000_0000_0000_0000 {
                        Some(i64::MIN)
                    } else {
                        Some(-(v as i64))
                    }
                } else {
                    Some(v as i64)
                }
            },
            None => None,
        }
    } else {
        assert(s@.subrange(0, s.len() as int) =~= s@);
        match digits_upto(s, 0, 0x7FFF_FFFF_FFFF_FFFF) {
            Some(v) => Some(v as i64),
            None => None,
        }
    }
}

/// `str::parse::<u16>` on characters.
pub fn parse_u16_exec(s: &Vec<char>) -> (r: Option<u16>)
    ensures
        r == parse_u16(s@),
{
    if s.len() == 0 {
        return None;
    }
    let start: usize = if s[0] == '+' { 1 } else { 0 };
    assert(s@.subrange(1, s.len() as int) =~= s@.drop_first());
    assert(s@.subrange(0, s.len() as int) =~= s@);
    match digits_upto(s, start, 0xFFFF) {
        Some(v) => Some(v as u16),
        None => None,
    }
}


/// Whether `a` and `b` hold the same characters.
pub fn chars_eq(a: &Vec<char>, b: &Vec<char>) -> (r: bool)
    ensures
        r == (a@ == b@),
{
    if a.len() != b.len() {
        return false;
    }
    let r = matches_at_exec(a, b, 0);
    proof {
        if r {
            assert(a@.subrange(0, b@.len() as int) =~= a@);
        } else {
            if a@ == b@ {
                assert(a@.subrange(0, b@.len() as int) =~= a@);
            }
        }
    }
    r
}

/// `s` without trailing characters that are `}` or whitespace.
pub open spec fn trim_end_braces(s: Seq<char>) -> Seq<char>
    decreases s.len(),
{
    if s.len() > 0 && (s.last() == '}' || is_whitespace_char(s.last())) {
        trim_end_braces(s.drop_last())
    } else {
        s
    }
}

pub proof fn lemma_trim_end_braces_skip(s: Seq<char>, j: int)
    requires
        0 <= j <= s.len(),
        forall|k: int| j <= k < s.len() ==> (#[trigger] s[k] == '}' || is_whitespace_char(s[k])),
    ensures
        trim_end_braces(s) == trim_end_braces(s.subrange(0, j)),
    decreases s.len() - j,
{
    if j < s.len() {
        assert(s.drop_last().subrange(0, j) =~= s.subrange(0, j));
        assert forall|k: int| j <= k < s.drop_last().len() implies (#[trigger] s.drop_last()[k]
            == '}' || is_whitespace_char(s.drop_last()[k])) by {
            assert(s.drop_last()[k] == s[k]);
        }
        lemma_trim_end_braces_skip(s.drop_last(), j);
    } else {
        assert(s.subrange(0, s.len() as int) =~= s);
    }
}

/// `str::trim_end_matches(|c| c == '}' || c.is_whitespace())`.
pub fn trim_end_braces_exec(s: &Vec<char>) -> (r: Vec<char>)
    ensures
        r@ == trim_end_braces(s@),
{
    let mut j: usize = s.len();
    while j > 0 && (s[j - 1] == '}' || char_is_whitespace(s[j - 1]))
        invariant
            j <= s.len(),
            forall|k: int| j <= k < s.len() ==> (#[trigger] s@[k] == '}' || is_whitespace_char(
                s@[k],
            )),
        decreases j,
    {
        j -= 1;
    }
    proof {
        lemma_trim_end_braces_skip(s@, j as int);
    }
    slice_chars(s, 0, j)
}


/// Number of bytes in the UTF-8 encoding of `s` (`str::len`).
pub fn utf8_len_exec(s: &Vec<char>) -> (n: u128)
    ensures
        n == utf8_len(s@),
{
    let mut n: u128 = 0;
    let mut i: usize = 0;
    while i < s.len()
        invariant
            i <= s.len(),
            n == utf8_len(s@.take(i as int)),
            n <= 4 * i,
        decreases s.len() - i,
    {
        proof {
            lemma_utf8_len_push(s@.take(i as int), s@[i as int]);
            assert(s@.take(i + 1) =~= s@.take(i as int).push(s@[i as int]));
        }
        n = n + char_width_exec(s[i]) as u128;
        i += 1;
    }
    assert(s@.take(s.len() as int) =~= s@);
    n
}


// ── Searching from the end, joining ─────────────────────────────────────────

/// The position of the last `c` in `s`.
pub open spec fn last_index_of(s: Seq<char>, c: char) -> Option<int>
    decreases s.len(),
{
    if s.len() == 0 {
        None
    } else if s.last() == c {
        Some(s.len() - 1)
    } else {
        last_index_of(s.drop_last(), c)
    }
}

pub proof fn lemma_last_index_of(s: Seq<char>, c: char, i: int)
    requires
        0 <= i <= s.len(),
        forall|j: int| i <= j < s.len() ==> s[j] != c,
    ensures
        last_index_of(s, c) == last_index_of(s.take(i), c),
    decreases s.len() - i,
{
    if i < s.len() {
        assert(s.drop_last().take(i) =~= s.take(i));
        lemma_last_index_of(s.drop_last(), c, i);
    } else {
        assert(s.take(i) =~= s);
    }
}

/// `a`, `b` and `c` one after another.
pub fn concat3(a: &str, b: &str, c: &str) -> (r: String)
    ensures
        r@ == a@ + b@ + c@,
{
    let mut v = chars_of(a);
    let w = chars_of(b);
    append_chars(&mut v, &w);
    let x = chars_of(c);
    append_chars(&mut v, &x);
    string_of(&v)
}

} // verus!
