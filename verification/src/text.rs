//! Character-level text primitives shared by the parsers and prompt builders.
//!
//! Strings are reasoned about through their `char` sequences (`s@`). Byte
//! lengths, which the size limits of the system are stated in, are related to
//! the characters through `utf8_len`.

use vstd::prelude::*;
use vstd::string::*;
use vstd::utf8::*;

verus! {

// ── Byte lengths ──────────────────────────────────────────────────────

/// Number of bytes UTF-8 uses for one character.
pub open spec fn utf8_width(c: char) -> nat {
    let v = c as u32;
    if v < 0x80 {
        1
    } else if v < 0x800 {
        2
    } else if v < 0x10000 {
        3
    } else {
        4
    }
}

/// Number of bytes of the UTF-8 encoding of a character sequence.
pub open spec fn utf8_len(s: Seq<char>) -> nat
    decreases s.len(),
{
    if s.len() == 0 {
        0
    } else {
        utf8_width(s[0]) + utf8_len(s.drop_first())
    }
}

proof fn lemma_encode_scalar_len(c: char)
    ensures
        encode_scalar(c as u32).len() == utf8_width(c),
{
    broadcast use char_is_scalar;

}

proof fn lemma_encode_len(s: Seq<char>)
    ensures
        encode_utf8(s).len() == utf8_len(s),
    decreases s.len(),
{
    if s.len() > 0 {
        lemma_encode_scalar_len(s[0]);
        lemma_encode_len(s.drop_first());
    }
}

/// `utf8_len` distributes over concatenation.
pub proof fn lemma_utf8_len_concat(a: Seq<char>, b: Seq<char>)
    ensures
        utf8_len(a + b) == utf8_len(a) + utf8_len(b),
    decreases a.len(),
{
    if a.len() == 0 {
        assert(a + b =~= b);
    } else {
        assert((a + b).drop_first() =~= a.drop_first() + b);
        lemma_utf8_len_concat(a.drop_first(), b);
    }
}

/// `utf8_len` of a prefix extended by one character.
pub proof fn lemma_utf8_len_push(a: Seq<char>, c: char)
    ensures
        utf8_len(a.push(c)) == utf8_len(a) + utf8_width(c),
{
    lemma_utf8_len_concat(a, seq![c]);
    assert(a.push(c) =~= a + seq![c]);
    assert(seq![c].drop_first() =~= Seq::<char>::empty());
    assert(utf8_len(seq![c]) == utf8_width(c) + utf8_len(seq![c].drop_first()));
    assert(utf8_len(Seq::<char>::empty()) == 0);
}

/// `utf8_len` never shrinks when a sequence grows.
pub proof fn lemma_utf8_len_prefix(s: Seq<char>, i: int)
    requires
        0 <= i <= s.len(),
    ensures
        utf8_len(s.take(i)) <= utf8_len(s),
        i < s.len() ==> utf8_len(s.take(i)) < utf8_len(s),
{
    lemma_utf8_len_concat(s.take(i), s.skip(i));
    assert(s =~= s.take(i) + s.skip(i));
    if i < s.len() {
        assert(s.skip(i).len() > 0);
    }
}

/// Byte length of a string slice (std's `str::len`, which counts the bytes
/// of the UTF-8 encoding; a slice in memory never exceeds `usize::MAX` bytes).
#[verifier::external_body]
pub fn byte_len(s: &str) -> (r: usize)
    ensures
        r == utf8_len(s@),
{
    s.len()
}

// ── Conversions ───────────────────────────────────────────────────────

/// The characters of a string slice, in order.
pub fn chars_of(s: &str) -> (r: Vec<char>)
    ensures
        r@ == s@,
{
    let mut out: Vec<char> = Vec::new();
    for c in it: s.chars()
        invariant
            out@ == it.seq().take(it.index() as int),
    {
        out.push(c);
    }
    out
}

/// Collects characters into a `String` (std's `FromIterator<char>`).
#[verifier::external_body]
pub fn string_from_chars(cs: &[char]) -> (r: String)
    ensures
        r@ == cs@,
{
    cs.iter().collect()
}

/// An owned copy of a string slice.
pub fn owned(s: &str) -> (r: String)
    ensures
        r@ == s@,
{
    s.to_owned()
}

/// `a` followed by `b`.
pub fn concat(a: &str, b: &str) -> (r: String)
    ensures
        r@ == a@ + b@,
{
    let mut s = a.to_owned();
    s.append(b);
    s
}

/// Appends `b` to `s`.
pub fn push_str(s: &mut String, b: &str)
    ensures
        final(s)@ == old(s)@ + b@,
{
    s.append(b);
}

/// Clones a list of strings, keeping every element.
pub fn clone_strings(v: &Vec<String>) -> (r: Vec<String>)
    ensures
        r@ == v@,
{
    let r = v.clone();
    proof {
        assert forall|i: int| 0 <= i < v.len() implies r[i] == v[i] by {
            assert(cloned::<String>(v[i], r[i]));
        }
        assert(r@ =~= v@);
    }
    r
}

/// Clones an optional string.
pub fn clone_opt(o: &Option<String>) -> (r: Option<String>)
    ensures
        r == *o,
{
    match o {
        Some(s) => Some(s.clone()),
        None => None,
    }
}

/// The character views of a list of strings.
pub open spec fn views(v: Seq<String>) -> Seq<Seq<char>> {
    v.map_values(|s: String| s@)
}

/// The character views of a list of string slices.
pub open spec fn str_views(v: Seq<&str>) -> Seq<Seq<char>> {
    v.map_values(|s: &str| s@)
}

/// Owned copies of string slices, in order.
pub fn owned_all(items: &[&str]) -> (r: Vec<String>)
    ensures
        views(r@) == str_views(items@),
{
    let mut out: Vec<String> = Vec::new();
    let mut i: usize = 0;
    while i < items.len()
        invariant
            i <= items.len(),
            views(out@) == str_views(items@).take(i as int),
        decreases items.len() - i,
    {
        let ghost before = views(out@);
        out.push(owned(items[i]));
        assert(views(out@) =~= before.push(items@[i as int]@));
        assert(str_views(items@).take(i + 1) =~= str_views(items@).take(i as int).push(items@[i as int]@));
        i = i + 1;
    }
    assert(str_views(items@).take(items.len() as int) =~= str_views(items@));
    out
}

// ── Lowercase ─────────────────────────────────────────────────────────

/// What `str::to_lowercase` returns for a character sequence.
pub uninterp spec fn lowercase(s: Seq<char>) -> Seq<char>;

/// A character lowercased as ASCII: `A`..`Z` become `a`..`z`, all else
/// stays.
pub open spec fn ascii_lower(c: char) -> char {
    if 'A' <= c && c <= 'Z' {
        ((c as u32) + 32) as char
    } else {
        c
    }
}

/// Every character is ASCII.
pub open spec fn all_ascii(s: Seq<char>) -> bool {
    forall|i: int| 0 <= i < s.len() ==> (#[trigger] s[i] as u32) < 128
}

/// Lowercases a string with std's `str::to_lowercase` (full Unicode case
/// mapping). The contract names the result: it is `lowercase` of the
/// argument's characters; the Unicode tables themselves are not restated,
/// beyond what they give for ASCII text: its letters `A`..`Z` become
/// `a`..`z` one for one and every other character stays.
#[verifier::external_body]
pub fn to_lowercase(s: &str) -> (r: String)
    ensures
        r@ == lowercase(s@),
        all_ascii(s@) ==> r@ == s@.map_values(|c: char| ascii_lower(c)),
{
    s.to_lowercase()
}

// ── Searching ─────────────────────────────────────────────────────────

/// `pat` occurs in `s` starting at index `i`.
pub open spec fn occurs_at(s: Seq<char>, pat: Seq<char>, i: int) -> bool {
    0 <= i && i + pat.len() <= s.len() && s.subrange(i, i + pat.len()) == pat
}

/// `pat` occurs somewhere in `s`.
pub open spec fn contains(s: Seq<char>, pat: Seq<char>) -> bool {
    exists|i: int| occurs_at(s, pat, i)
}

/// `i` is the first occurrence of `pat` in `s` at or after `from`.
pub open spec fn first_occurrence_from(s: Seq<char>, pat: Seq<char>, from: int, i: int) -> bool {
    from <= i && occurs_at(s, pat, i) && forall|j: int| from <= j < i ==> !occurs_at(s, pat, j)
}

/// The index of the first occurrence of `pat` at or after `from`, if any.
pub open spec fn find_from_spec(s: Seq<char>, pat: Seq<char>, from: int) -> Option<int> {
    if exists|i: int| first_occurrence_from(s, pat, from, i) {
        Some(choose|i: int| first_occurrence_from(s, pat, from, i))
    } else {
        None
    }
}

/// The first occurrence is unique.
pub proof fn lemma_first_occurrence_unique(s: Seq<char>, pat: Seq<char>, from: int, i: int, j: int)
    requires
        first_occurrence_from(s, pat, from, i),
        first_occurrence_from(s, pat, from, j),
    ensures
        i == j,
{
}

pub fn matches_at(s: &Vec<char>, pat: &Vec<char>, i: usize) -> (r: bool)
    requires
        i <= s.len(),
    ensures
        r == occurs_at(s@, pat@, i as int),
{
    if pat.len() > s.len() - i {
        return false;
    }
    let mut k: usize = 0;
    while k < pat.len()
        invariant
            i + pat.len() <= s.len(),
            k <= pat.len(),
            forall|m: int| 0 <= m < k ==> s@[i + m] == pat@[m],
        decreases pat.len() - k,
    {
        if s[i + k] != pat[k] {
            assert(s@.subrange(i as int, i + pat.len())[k as int] != pat@[k as int]);
            return false;
        }
        k = k + 1;
    }
    assert(s@.subrange(i as int, i + pat.len()) =~= pat@);
    true
}

/// First index at or after `from` where `pat` occurs in `s`.
pub fn find_from(s: &Vec<char>, pat: &Vec<char>, from: usize) -> (r: Option<usize>)
    ensures
        match r {
            Some(i) => first_occurrence_from(s@, pat@, from as int, i as int),
            None => forall|j: int| from <= j ==> !occurs_at(s@, pat@, j),
        },
        r matches Some(i) ==> find_from_spec(s@, pat@, from as int) == Some(i as int),
        r is None ==> find_from_spec(s@, pat@, from as int) is None,
{
    if from > s.len() {
        return None;
    }
    let mut i: usize = from;
    loop
        invariant
            from <= i <= s.len(),
            forall|j: int| from <= j < i ==> !occurs_at(s@, pat@, j),
        ensures
            i == s.len(),
            forall|j: int| from <= j <= i ==> !occurs_at(s@, pat@, j),
        decreases s.len() - i,
    {
        if matches_at(s, pat, i) {
            proof {
                assert(first_occurrence_from(s@, pat@, from as int, i as int));
                let c = choose|k: int| first_occurrence_from(s@, pat@, from as int, k);
                lemma_first_occurrence_unique(s@, pat@, from as int, i as int, c);
            }
            return Some(i);
        }
        if i == s.len() {
            break;
        }
        i = i + 1;
    }
    proof {
        assert forall|j: int| from <= j implies !occurs_at(s@, pat@, j) by {
            if j > i {
                assert(j + pat@.len() > s@.len() || j < 0);
            }
        }
    }
    None
}

/// Whether `pat` occurs in `s`.
pub fn contains_chars(s: &Vec<char>, pat: &Vec<char>) -> (r: bool)
    ensures
        r == contains(s@, pat@),
{
    match find_from(s, pat, 0) {
        Some(i) => true,
        None => {
            assert(forall|j: int| !occurs_at(s@, pat@, j));
            false
        },
    }
}

/// Whether `pat` occurs in `s`.
pub fn str_contains(s: &str, pat: &str) -> (r: bool)
    ensures
        r == contains(s@, pat@),
{
    let a = chars_of(s);
    let b = chars_of(pat);
    contains_chars(&a, &b)
}

/// `s` starts with `pat`.
pub open spec fn starts_with(s: Seq<char>, pat: Seq<char>) -> bool {
    occurs_at(s, pat, 0)
}

/// Whether `s` starts with `pat`.
pub fn str_starts_with(s: &str, pat: &str) -> (r: bool)
    ensures
        r == starts_with(s@, pat@),
{
    let a = chars_of(s);
    let b = chars_of(pat);
    matches_at(&a, &b, 0)
}

/// Whether two strings hold the same characters.
pub fn str_eq(a: &str, b: &str) -> (r: bool)
    ensures
        r == (a@ == b@),
{
    let x = chars_of(a);
    let y = chars_of(b);
    if x.len() != y.len() {
        return false;
    }
    let r = matches_at(&x, &y, 0);
    proof {
        assert(x@ =~= x@.subrange(0, y@.len() as int));
    }
    r
}

/// Some keyword occurs in `s`.
pub open spec fn contains_any_spec(s: Seq<char>, keywords: Seq<Seq<char>>) -> bool {
    exists|i: int| 0 <= i < keywords.len() && contains(s, #[trigger] keywords[i])
}

/// Whether any of `keywords` occurs in `text`.
pub fn contains_any(text: &str, keywords: &[&str]) -> (r: bool)
    ensures
        r == contains_any_spec(text@, str_views(keywords@)),
{
    let t = chars_of(text);
    let mut i: usize = 0;
    while i < keywords.len()
        invariant
            i <= keywords.len(),
            t@ == text@,
            forall|j: int| 0 <= j < i ==> !contains(text@, #[trigger] str_views(keywords@)[j]),
        decreases keywords.len() - i,
    {
        let k = chars_of(keywords[i]);
        if contains_chars(&t, &k) {
            assert(str_views(keywords@)[i as int] == keywords@[i as int]@);
            return true;
        }
        assert(str_views(keywords@)[i as int] == keywords@[i as int]@);
        i = i + 1;
    }
    false
}

// ── Whitespace ────────────────────────────────────────────────────────

/// Unicode `White_Space` characters, the set `char::is_whitespace` tests.
pub open spec fn is_ws(c: char) -> bool {
    let v = c as u32;
    (0x09 <= v <= 0x0D) || v == 0x20 || v == 0x85 || v == 0xA0 || v == 0x1680 || (0x2000 <= v
        <= 0x200A) || v == 0x2028 || v == 0x2029 || v == 0x202F || v == 0x205F || v == 0x3000
}

/// Whether a character is Unicode whitespace.
pub fn char_is_ws(c: char) -> (r: bool)
    ensures
        r == is_ws(c),
{
    let v = c as u32;
    (0x09 <= v && v <= 0x0D) || v == 0x20 || v == 0x85 || v == 0xA0 || v == 0x1680 || (0x2000
        <= v && v <= 0x200A) || v == 0x2028 || v == 0x2029 || v == 0x202F || v == 0x205F || v
        == 0x3000
}

/// Index of the first non-whitespace character (or the length).
pub open spec fn trim_start_index(s: Seq<char>) -> int
    decreases s.len(),
{
    if s.len() == 0 {
        0
    } else if is_ws(s[0]) {
        1 + trim_start_index(s.drop_first())
    } else {
        0
    }
}

/// `s` with leading and trailing whitespace removed.
pub open spec fn trim(s: Seq<char>) -> Seq<char>
    decreases s.len(),
{
    if s.len() == 0 {
        s
    } else if is_ws(s[0]) {
        trim(s.drop_first())
    } else if is_ws(s.last()) {
        trim(s.drop_last())
    } else {
        s
    }
}

/// `trim(s)` is the subrange between the first and one past the last
/// non-whitespace characters.
proof fn lemma_trim_subrange(s: Seq<char>, lo: int, hi: int)
    requires
        0 <= lo <= hi <= s.len(),
        forall|k: int| 0 <= k < lo ==> is_ws(s[k]),
        forall|k: int| hi <= k < s.len() ==> is_ws(s[k]),
        lo == hi || (!is_ws(s[lo]) && !is_ws(s[hi - 1])),
    ensures
        trim(s) == s.subrange(lo, hi),
    decreases s.len(),
{
    if s.len() == 0 {
        assert(s.subrange(lo, hi) =~= s);
    } else if lo > 0 {
        lemma_trim_subrange(s.drop_first(), lo - 1, hi - 1);
        assert(s.drop_first().subrange(lo - 1, hi - 1) =~= s.subrange(lo, hi));
    } else if hi < s.len() {
        if lo == hi {
            // everything is whitespace from lo == 0
            assert(is_ws(s[0]));
            lemma_trim_subrange(s.drop_first(), 0, 0);
            assert(s.drop_first().subrange(0, 0) =~= s.subrange(lo, hi));
        } else {
            lemma_trim_subrange(s.drop_last(), lo, hi);
            assert(s.drop_last().subrange(lo, hi) =~= s.subrange(lo, hi));
        }
    } else {
        if lo == hi {
            assert(s.subrange(lo, hi) =~= Seq::<char>::empty());
            assert(s.len() == 0);
        } else {
            assert(s.subrange(lo, hi) =~= s);
        }
    }
}

/// Bounds of the trimmed part of `s`.
pub fn trim_bounds(s: &Vec<char>) -> (r: (usize, usize))
    ensures
        r.0 <= r.1 <= s.len(),
        s@.subrange(r.0 as int, r.1 as int) == trim(s@),
{
    let mut lo: usize = 0;
    while lo < s.len() && char_is_ws(s[lo])
        invariant
            lo <= s.len(),
            forall|k: int| 0 <= k < lo ==> is_ws(s@[k]),
        decreases s.len() - lo,
    {
        lo = lo + 1;
    }
    let mut hi: usize = s.len();
    while hi > lo && char_is_ws(s[hi - 1])
        invariant
            lo <= hi <= s.len(),
            forall|k: int| hi <= k < s.len() ==> is_ws(s@[k]),
        decreases hi - lo,
    {
        hi = hi - 1;
    }
    proof {
        lemma_trim_subrange(s@, lo as int, hi as int);
    }
    (lo, hi)
}

/// Copies the characters `s[lo..hi]`.
pub fn slice_chars(s: &Vec<char>, lo: usize, hi: usize) -> (r: Vec<char>)
    requires
        lo <= hi <= s.len(),
    ensures
        r@ == s@.subrange(lo as int, hi as int),
{
    let mut out: Vec<char> = Vec::new();
    let mut i = lo;
    while i < hi
        invariant
            lo <= i <= hi <= s.len(),
            out@ == s@.subrange(lo as int, i as int),
        decreases hi - i,
    {
        out.push(s[i]);
        proof {
            assert(s@.subrange(lo as int, i + 1) =~= s@.subrange(lo as int, i as int).push(
                s@[i as int],
            ));
        }
        i = i + 1;
    }
    out
}

/// `s` with surrounding whitespace removed.
pub fn trim_chars(s: &Vec<char>) -> (r: Vec<char>)
    ensures
        r@ == trim(s@),
{
    let (lo, hi) = trim_bounds(s);
    slice_chars(s, lo, hi)
}

/// `s` with surrounding whitespace removed, as a `String`.
pub fn trim_str(s: &str) -> (r: String)
    ensures
        r@ == trim(s@),
{
    let c = chars_of(s);
    let t = trim_chars(&c);
    string_from_chars(t.as_slice())
}

/// The whitespace-separated words of `s[i..]`, given the word being read.
pub open spec fn words_from(s: Seq<char>, i: int, cur: Seq<char>) -> Seq<Seq<char>>
    decreases s.len() - i,
{
    if i >= s.len() || i < 0 {
        if cur.len() > 0 {
            seq![cur]
        } else {
            seq![]
        }
    } else if is_ws(s[i]) {
        if cur.len() > 0 {
            seq![cur] + words_from(s, i + 1, Seq::empty())
        } else {
            words_from(s, i + 1, Seq::empty())
        }
    } else {
        words_from(s, i + 1, cur.push(s[i]))
    }
}

/// The whitespace-separated words of `s`, as `str::split_whitespace` yields them.
pub open spec fn words(s: Seq<char>) -> Seq<Seq<char>> {
    words_from(s, 0, Seq::empty())
}

/// Splits `s` into its whitespace-separated words.
pub fn split_words(s: &Vec<char>) -> (r: Vec<Vec<char>>)
    ensures
        r@.map_values(|w: Vec<char>| w@) == words(s@),
{
    let mut out: Vec<Vec<char>> = Vec::new();
    let mut cur: Vec<char> = Vec::new();
    let mut i: usize = 0;
    while i < s.len()
        invariant
            i <= s.len(),
            out@.map_values(|w: Vec<char>| w@) + words_from(s@, i as int, cur@) == words(s@),
        decreases s.len() - i,
    {
        let ghost before = out@.map_values(|w: Vec<char>| w@);
        let ghost old_cur = cur@;
        if char_is_ws(s[i]) {
            if cur.len() > 0 {
                let w = cur;
                cur = Vec::new();
                out.push(w);
                assert(out@.map_values(|w: Vec<char>| w@) =~= before.push(w@));
                assert(words_from(s@, i as int, old_cur) == seq![old_cur] + words_from(
                    s@,
                    i + 1,
                    Seq::empty(),
                ));
                assert(cur@ =~= Seq::<char>::empty());
                assert(before + words_from(s@, i as int, old_cur) =~= out@.map_values(
                    |w: Vec<char>| w@,
                ) + words_from(s@, i + 1, cur@));
            } else {
                assert(old_cur =~= Seq::<char>::empty());
                assert(words_from(s@, i as int, old_cur) == words_from(s@, i + 1, Seq::empty()));
                assert(cur@ =~= Seq::<char>::empty());
            }
        } else {
            cur.push(s[i]);
            assert(words_from(s@, i as int, old_cur) == words_from(s@, i + 1, old_cur.push(s@[i as int])));
            assert(out@.map_values(|w: Vec<char>| w@) == before);
        }
        i = i + 1;
    }
    if cur.len() > 0 {
        let ghost before = out@.map_values(|w: Vec<char>| w@);
        out.push(cur);
        assert(out@.map_values(|w: Vec<char>| w@) =~= before.push(cur@));
    }
    assert(out@.map_values(|w: Vec<char>| w@) =~= words(s@));
    out
}

/// `parts` joined with `sep` between consecutive parts.
pub open spec fn join(parts: Seq<Seq<char>>, sep: Seq<char>) -> Seq<char>
    decreases parts.len(),
{
    if parts.len() == 0 {
        Seq::empty()
    } else if parts.len() == 1 {
        parts[0]
    } else {
        join(parts.drop_last(), sep) + sep + parts.last()
    }
}

/// Joins strings with `sep` between consecutive ones.
pub fn join_strings(parts: &Vec<String>, sep: &str) -> (r: String)
    ensures
        r@ == join(views(parts@), sep@),
{
    let ghost ps = views(parts@);
    let mut out = String::new();
    let mut i: usize = 0;
    while i < parts.len()
        invariant
            i <= parts.len(),
            ps == views(parts@),
            out@ == join(ps.take(i as int), sep@),
        decreases parts.len() - i,
    {
        let ghost prev = out@;
        if i > 0 {
            push_str(&mut out, sep);
        }
        push_str(&mut out, parts[i].as_str());
        proof {
            assert(ps[i as int] == parts@[i as int]@);
            assert(ps.take(i + 1).drop_last() =~= ps.take(i as int));
            if i == 0 {
                assert(ps.take(1) =~= seq![parts@[0]@]);
                assert(out@ =~= parts@[0]@);
            }
        }
        i = i + 1;
    }
    assert(ps.take(parts.len() as int) =~= ps);
    out
}

/// Joins the first `n` words with `sep`.
pub fn join_chars(parts: &Vec<Vec<char>>, n: usize, sep: &Vec<char>) -> (r: Vec<char>)
    requires
        n <= parts.len(),
    ensures
        r@ == join(parts@.map_values(|w: Vec<char>| w@).take(n as int), sep@),
{
    let ghost ps = parts@.map_values(|w: Vec<char>| w@);
    let mut out: Vec<char> = Vec::new();
    let mut i: usize = 0;
    while i < n
        invariant
            i <= n <= parts.len(),
            ps == parts@.map_values(|w: Vec<char>| w@),
            out@ == join(ps.take(i as int), sep@),
        decreases n - i,
    {
        let ghost prev = out@;
        if i > 0 {
            let mut k: usize = 0;
            while k < sep.len()
                invariant
                    k <= sep.len(),
                    out@ == prev + sep@.take(k as int),
                decreases sep.len() - k,
            {
                out.push(sep[k]);
                proof {
                    assert(sep@.take(k + 1) =~= sep@.take(k as int).push(sep@[k as int]));
                }
                k = k + 1;
            }
        }
        let ghost mid = out@;
        let w = &parts[i];
        let mut k: usize = 0;
        while k < w.len()
            invariant
                k <= w.len(),
                out@ == mid + w@.take(k as int),
            decreases w.len() - k,
        {
            out.push(w[k]);
            proof {
                assert(w@.take(k + 1) =~= w@.take(k as int).push(w@[k as int]));
            }
            k = k + 1;
        }
        proof {
            assert(ps[i as int] == w@);
            assert(ps.take(i + 1).drop_last() =~= ps.take(i as int));
            assert(w@.take(w@.len() as int) =~= w@);
            assert(sep@.take(sep@.len() as int) =~= sep@);
            if i == 0 {
                assert(ps.take(1) =~= seq![w@]);
                assert(out@ =~= w@);
            } else {
                assert(out@ =~= prev + sep@ + w@);
            }
        }
        i = i + 1;
    }
    out
}


// ── Numbers ───────────────────────────────────────────────────────────

/// The decimal digit character for `d < 10`.
pub open spec fn digit(d: nat) -> char {
    (48 + d) as char
}

/// Decimal notation of `n`, as `{}` prints an unsigned integer.
pub open spec fn dec(n: nat) -> Seq<char>
    decreases n,
{
    if n < 10 {
        seq![digit(n)]
    } else {
        dec(n / 10).push(digit(n % 10))
    }
}

fn digit_char(d: u64) -> (r: char)
    requires
        d < 10,
    ensures
        r == digit(d as nat),
{
    let b: u8 = 48u8 + (d as u8);
    b as char
}

/// Appends the decimal notation of `n` to `out`.
pub fn push_decimal(out: &mut Vec<char>, n: u64)
    ensures
        final(out)@ == old(out)@ + dec(n as nat),
    decreases n,
{
    if n >= 10 {
        push_decimal(out, n / 10);
    }
    let d = digit_char(n % 10);
    let ghost before = out@;
    out.push(d);
    proof {
        if n >= 10 {
            assert(dec(n as nat) == dec((n / 10) as nat).push(digit((n % 10) as nat)));
        } else {
            assert(dec(n as nat) == seq![digit(n as nat)]);
        }
        assert(out@ =~= old(out)@ + dec(n as nat));
    }
}

/// Decimal notation of `n`.
pub fn decimal(n: u64) -> (r: String)
    ensures
        r@ == dec(n as nat),
{
    let mut out: Vec<char> = Vec::new();
    push_decimal(&mut out, n);
    assert(out@ =~= dec(n as nat));
    string_from_chars(out.as_slice())
}

// ── Byte-bounded prefixes ─────────────────────────────────────────────

/// Number of bytes UTF-8 uses for `c`.
pub fn char_width(c: char) -> (r: usize)
    ensures
        r == utf8_width(c),
{
    let v = c as u32;
    if v < 0x80 {
        1
    } else if v < 0x800 {
        2
    } else if v < 0x10000 {
        3
    } else {
        4
    }
}

/// Length of the longest prefix of `s` whose UTF-8 encoding fits in `n`
/// bytes: the prefix ends at the last character boundary at or before byte `n`.
pub open spec fn chars_within(s: Seq<char>, n: int) -> nat
    decreases s.len(),
{
    if s.len() == 0 || utf8_width(s[0]) > n {
        0
    } else {
        1 + chars_within(s.drop_first(), n - utf8_width(s[0]))
    }
}

proof fn lemma_chars_within_step(s: Seq<char>, n: int, k: int)
    requires
        0 <= k < s.len(),
        utf8_len(s.take(k)) + utf8_width(s[k]) <= n,
        chars_within(s, n) == k + chars_within(s.skip(k), n - utf8_len(s.take(k))),
    ensures
        chars_within(s, n) == k + 1 + chars_within(s.skip(k + 1), n - utf8_len(s.take(k + 1))),
{
    lemma_utf8_len_push(s.take(k), s[k]);
    assert(s.take(k + 1) =~= s.take(k).push(s[k]));
    assert(s.skip(k).drop_first() =~= s.skip(k + 1));
    assert(s.skip(k)[0] == s[k]);
}

/// The longest prefix of `s` that fits in `n` bytes, as a character count.
pub fn prefix_within(s: &Vec<char>, n: usize) -> (r: usize)
    ensures
        r == chars_within(s@, n as int),
        r <= s.len(),
        utf8_len(s@.take(r as int)) <= n,
        r < s.len() ==> utf8_len(s@.take(r + 1)) > n,
{
    let mut k: usize = 0;
    let mut used: usize = 0;
    assert(s@.skip(0) =~= s@);
    assert(s@.take(0) =~= Seq::<char>::empty());
    while k < s.len()
        invariant
            k <= s.len(),
            used == utf8_len(s@.take(k as int)),
            used <= n,
            chars_within(s@, n as int) == k + chars_within(s@.skip(k as int), n - used),
        decreases s.len() - k,
    {
        let w = char_width(s[k]);
        if w > n - used {
            assert(s@.skip(k as int)[0] == s@[k as int]);
            proof {
                lemma_utf8_len_push(s@.take(k as int), s@[k as int]);
                assert(s@.take(k + 1) =~= s@.take(k as int).push(s@[k as int]));
            }
            return k;
        }
        proof {
            lemma_chars_within_step(s@, n as int, k as int);
            lemma_utf8_len_push(s@.take(k as int), s@[k as int]);
            assert(s@.take(k + 1) =~= s@.take(k as int).push(s@[k as int]));
        }
        used = used + w;
        k = k + 1;
    }
    assert(s@.skip(k as int).len() == 0);
    k
}

/// `s` cut to at most `n` bytes at a character boundary, then `...`, when
/// its encoding is longer than `n` bytes; `s` itself otherwise.
pub open spec fn clip_bytes(s: Seq<char>, n: int) -> Seq<char> {
    if utf8_len(s) > n {
        s.take(chars_within(s, n) as int) + "..."@
    } else {
        s
    }
}

/// Cuts `s` to `n` bytes at a character boundary and marks the cut with `...`.
pub fn clip(s: &Vec<char>, n: usize) -> (r: Vec<char>)
    ensures
        r@ == clip_bytes(s@, n as int),
        utf8_len(s@) <= n ==> r@ == s@,
        utf8_len(r@) <= n + 3,
{
    let k = prefix_within(s, n);
    proof {
        lemma_utf8_len_prefix(s@, k as int);
        if k < s.len() {
            lemma_utf8_len_prefix(s@, k + 1);
        }
    }
    if k == s.len() {
        assert(s@.take(k as int) =~= s@);
        return slice_chars(s, 0, k);
    }
    let mut out = slice_chars(s, 0, k);
    assert(out@ =~= s@.take(k as int));
    proof {
        reveal_strlit("...");
    }
    let dots = chars_of("...");
    let ghost before = out@;
    let mut i: usize = 0;
    while i < dots.len()
        invariant
            i <= dots.len(),
            dots@ == "..."@,
            out@ == before + dots@.take(i as int),
        decreases dots.len() - i,
    {
        out.push(dots[i]);
        assert(dots@.take(i + 1) =~= dots@.take(i as int).push(dots@[i as int]));
        i = i + 1;
    }
    proof {
        assert(dots@.take(3) =~= dots@);
        lemma_utf8_len_concat(before, dots@);
        assert(utf8_len(dots@) == 3) by {
            reveal_with_fuel(utf8_len, 4);
        }
    }
    out
}


// ── Occurrence facts ──────────────────────────────────────────────────

/// An occurrence in `a` is an occurrence in `a + b`, and one in `b` is one
/// in `a + b` shifted by `a`'s length.
pub proof fn lemma_occurs_concat(a: Seq<char>, b: Seq<char>, p: Seq<char>, i: int)
    ensures
        occurs_at(a, p, i) ==> occurs_at(a + b, p, i),
        occurs_at(b, p, i) ==> occurs_at(a + b, p, a.len() + i),
{
    if occurs_at(a, p, i) {
        assert((a + b).subrange(i, i + p.len()) =~= a.subrange(i, i + p.len()));
    }
    if occurs_at(b, p, i) {
        assert((a + b).subrange(a.len() + i, a.len() + i + p.len()) =~= b.subrange(i, i + p.len()));
    }
}

/// An occurrence of `q` inside an occurrence of `p` is an occurrence in
/// the whole text.
pub proof fn lemma_occurs_nested(s: Seq<char>, p: Seq<char>, q: Seq<char>, i: int, j: int)
    requires
        occurs_at(s, p, i),
        occurs_at(p, q, j),
    ensures
        occurs_at(s, q, i + j),
{
    assert(s.subrange(i + j, i + j + q.len()) =~= p.subrange(j, j + q.len()));
}

/// Each part of a joined text occurs in it.
pub proof fn lemma_join_contains(parts: Seq<Seq<char>>, sep: Seq<char>, k: int)
    requires
        0 <= k < parts.len(),
    ensures
        contains(join(parts, sep), parts[k]),
    decreases parts.len(),
{
    let p = parts[k];
    if parts.len() == 1 {
        assert(occurs_at(parts[0], p, 0)) by {
            assert(parts[0].subrange(0, p.len() as int) =~= p);
        }
    } else {
        let front = join(parts.drop_last(), sep) + sep;
        if k < parts.len() - 1 {
            lemma_join_contains(parts.drop_last(), sep, k);
            let i = choose|i: int| occurs_at(join(parts.drop_last(), sep), p, i);
            lemma_occurs_concat(join(parts.drop_last(), sep), sep, p, i);
            lemma_occurs_concat(front, parts.last(), p, i);
        } else {
            assert(occurs_at(parts.last(), p, 0)) by {
                assert(parts.last().subrange(0, p.len() as int) =~= p);
            }
            lemma_occurs_concat(front, parts.last(), p, 0);
        }
    }
}

} // verus!
