//! The skill index (`_index.md`) and on-demand skill matching.
//!
//! Each index line reads `skill_name: one-line description [trigger,words]`.
//! A query's keywords are scored against every entry; the entries that
//! score are ranked best first, and the caller loads their SOP files.
//! Crystallizing a skill writes its SOP document and adds a line to the
//! index under `## Self-Evolved Skills`.

use vstd::prelude::*;
use crate::lines::{
    join_lines, lemma_lines_have_no_newline, lemma_lines_of_joined, lines, no_newline, split_lines, strip_cr,
};
use crate::task::opt_str_view;
use crate::text::{
    chars_of, clone_strings, concat, contains, dec, decimal, find_from, find_from_spec, first_occurrence_from, is_ws, join,
    lemma_first_occurrence_unique, lowercase, occurs_at, owned, push_str,
    slice_chars, split_words, starts_with, str_contains, str_eq, str_starts_with, string_from_chars, to_lowercase, trim,
    trim_chars, views, words,
};

verus! {

/// A skill entry of the index.
#[derive(Debug)]
pub struct SkillIndexEntry {
    pub name: String,
    pub description: String,
    pub trigger_words: Vec<String>,
    pub sop_file: String,
}

/// The mathematical content of a `SkillIndexEntry`.
pub struct EntryView {
    pub name: Seq<char>,
    pub description: Seq<char>,
    pub trigger_words: Seq<Seq<char>>,
    pub sop_file: Seq<char>,
}

impl View for SkillIndexEntry {
    type V = EntryView;

    open spec fn view(&self) -> EntryView {
        EntryView {
            name: self.name@,
            description: self.description@,
            trigger_words: views(self.trigger_words@),
            sop_file: self.sop_file@,
        }
    }
}

impl SkillIndexEntry {
    /// A copy holding the same values.
    pub fn copy(&self) -> (r: SkillIndexEntry)
        ensures
            r@ == self@,
    {
        SkillIndexEntry {
            name: self.name.clone(),
            description: self.description.clone(),
            trigger_words: clone_strings(&self.trigger_words),
            sop_file: self.sop_file.clone(),
        }
    }
}

// ── Parsing ──────────────────────────────────────────────────────────

/// The pieces of `s[i..]` between commas, given the piece being read.
pub open spec fn comma_pieces_from(s: Seq<char>, i: int, cur: Seq<char>) -> Seq<Seq<char>>
    decreases s.len() - i,
{
    if i >= s.len() || i < 0 {
        seq![cur]
    } else if s[i] == ',' {
        seq![cur] + comma_pieces_from(s, i + 1, Seq::empty())
    } else {
        comma_pieces_from(s, i + 1, cur.push(s[i]))
    }
}

/// The pieces of `s` between commas, as `str::split(',')` yields them.
pub open spec fn comma_pieces(s: Seq<char>) -> Seq<Seq<char>> {
    comma_pieces_from(s, 0, Seq::empty())
}

/// Trigger words: each piece trimmed and lowercased, empty ones dropped.
pub open spec fn trigger_list(pieces: Seq<Seq<char>>) -> Seq<Seq<char>>
    decreases pieces.len(),
{
    if pieces.len() == 0 {
        Seq::empty()
    } else {
        let rest = trigger_list(pieces.drop_last());
        let w = lowercase(trim(pieces.last()));
        if w.len() > 0 {
            rest.push(w)
        } else {
            rest
        }
    }
}

/// Index of the last occurrence of `c` in `s`.
pub open spec fn last_index(s: Seq<char>, c: char) -> Option<int>
    decreases s.len(),
{
    if s.len() == 0 {
        None
    } else if s.last() == c {
        Some(s.len() - 1)
    } else {
        last_index(s.drop_last(), c)
    }
}

/// Where the trigger list of a line's rest ends: at its last `]`, or at
/// its end.
pub open spec fn bracket_end(rest: Seq<char>) -> int {
    match last_index(rest, ']') {
        Some(e) => e,
        None => rest.len() as int,
    }
}

/// A line is read without fault unless it is an entry line (not blank, a
/// heading or a comment) whose last `]` comes before its first `[` (the
/// trigger slice would then run backwards).
pub open spec fn line_ok(line: Seq<char>) -> bool {
    let t = trim(line);
    if t.len() == 0 || starts_with(t, "#"@) || starts_with(t, "//"@) {
        true
    } else {
    match find_from_spec(t, seq![':'], 0) {
        Some(c) => {
            let rest = trim(t.skip(c + 1));
            match find_from_spec(rest, seq!['['], 0) {
                Some(b) => bracket_end(rest) >= b + 1,
                None => true,
            }
        },
        None => true,
    }
    }
}

/// Every line of an index reads without fault.
pub open spec fn index_ok(content: Seq<char>) -> bool {
    forall|i: int| 0 <= i < lines(content).len() ==> line_ok(#[trigger] lines(content)[i])
}

/// The entry a line of the index describes, if any: headings, comments
/// and blank lines, and lines without `:`, describe none.
pub open spec fn entry_of_line(line: Seq<char>) -> Option<EntryView> {
    let t = trim(line);
    if t.len() == 0 || starts_with(t, "#"@) || starts_with(t, "//"@) {
        None
    } else {
        match find_from_spec(t, seq![':'], 0) {
            None => None,
            Some(c) => {
                let name = trim(t.take(c));
                let rest = trim(t.skip(c + 1));
                let (desc, triggers) = match find_from_spec(rest, seq!['['], 0) {
                    Some(b) => (
                        trim(rest.take(b)),
                        trigger_list(comma_pieces(rest.subrange(b + 1, bracket_end(rest)))),
                    ),
                    None => (rest, Seq::empty()),
                };
                Some(
                    EntryView {
                        name,
                        description: desc,
                        trigger_words: triggers,
                        sop_file: name + ".md"@,
                    },
                )
            },
        }
    }
}

/// The entries of a list of index lines, in order.
pub open spec fn entries_of(ls: Seq<Seq<char>>) -> Seq<EntryView>
    decreases ls.len(),
{
    if ls.len() == 0 {
        Seq::empty()
    } else {
        match entry_of_line(ls.last()) {
            Some(e) => entries_of(ls.drop_last()).push(e),
            None => entries_of(ls.drop_last()),
        }
    }
}

/// The entries of an index file.
pub open spec fn index_entries(content: Seq<char>) -> Seq<EntryView> {
    entries_of(lines(content))
}

fn split_commas(s: &Vec<char>) -> (r: Vec<Vec<char>>)
    ensures
        r@.map_values(|w: Vec<char>| w@) == comma_pieces(s@),
{
    let mut out: Vec<Vec<char>> = Vec::new();
    let mut cur: Vec<char> = Vec::new();
    let mut i: usize = 0;
    while i < s.len()
        invariant
            i <= s.len(),
            out@.map_values(|w: Vec<char>| w@) + comma_pieces_from(s@, i as int, cur@) == comma_pieces(s@),
        decreases s.len() - i,
    {
        let ghost before = out@.map_values(|w: Vec<char>| w@);
        let ghost old_cur = cur@;
        if s[i] == ',' {
            let w = cur;
            cur = Vec::new();
            out.push(w);
            assert(out@.map_values(|w: Vec<char>| w@) =~= before.push(old_cur));
            assert(cur@ =~= Seq::<char>::empty());
            assert(before + comma_pieces_from(s@, i as int, old_cur) =~= out@.map_values(
                |w: Vec<char>| w@,
            ) + comma_pieces_from(s@, i + 1, cur@));
        } else {
            cur.push(s[i]);
            assert(comma_pieces_from(s@, i as int, old_cur) == comma_pieces_from(s@, i + 1, old_cur.push(s@[i as int])));
        }
        i = i + 1;
    }
    let ghost before = out@.map_values(|w: Vec<char>| w@);
    out.push(cur);
    assert(out@.map_values(|w: Vec<char>| w@) =~= before.push(cur@));
    assert(out@.map_values(|w: Vec<char>| w@) =~= comma_pieces(s@));
    out
}

fn triggers_from(pieces: &Vec<Vec<char>>) -> (r: Vec<String>)
    ensures
        views(r@) == trigger_list(pieces@.map_values(|w: Vec<char>| w@)),
{
    let ghost all = pieces@.map_values(|w: Vec<char>| w@);
    let mut out: Vec<String> = Vec::new();
    let mut i: usize = 0;
    while i < pieces.len()
        invariant
            i <= pieces.len(),
            all == pieces@.map_values(|w: Vec<char>| w@),
            views(out@) == trigger_list(all.take(i as int)),
        decreases pieces.len() - i,
    {
        let ghost before = views(out@);
        assert(all.take(i + 1).drop_last() =~= all.take(i as int));
        assert(all.take(i + 1).last() == pieces@[i as int]@);
        let t = string_from_chars(trim_chars(&pieces[i]).as_slice());
        let w = to_lowercase(t.as_str());
        let wc = chars_of(w.as_str());
        if wc.len() > 0 {
            out.push(w);
            assert(views(out@) =~= before.push(wc@));
        }
        i = i + 1;
    }
    assert(all.take(pieces.len() as int) =~= all);
    out
}

fn find_last(s: &Vec<char>, c: char) -> (r: Option<usize>)
    ensures
        match r {
            Some(e) => last_index(s@, c) == Some(e as int) && e < s.len(),
            None => last_index(s@, c) is None,
        },
{
    let mut k: usize = s.len();
    assert(s@.take(k as int) =~= s@);
    while k > 0
        invariant
            k <= s.len(),
            last_index(s@, c) == last_index(s@.take(k as int), c),
        decreases k,
    {
        assert(s@.take(k as int).last() == s@[k - 1]);
        assert(s@.take(k as int).drop_last() =~= s@.take(k - 1));
        if s[k - 1] == c {
            return Some(k - 1);
        }
        k = k - 1;
    }
    None
}

fn parse_line(line: &Vec<char>) -> (r: Option<SkillIndexEntry>)
    requires
        line_ok(line@),
    ensures
        match entry_of_line(line@) {
            Some(e) => r matches Some(x) && x@ == e,
            None => r is None,
        },
{
    let t = trim_chars(line);
    let ts = string_from_chars(t.as_slice());
    let is_heading = crate::text::str_starts_with(ts.as_str(), "#");
    let is_comment = crate::text::str_starts_with(ts.as_str(), "//");
    if t.len() == 0 || is_heading || is_comment {
        return None;
    }
    let colon = vec![':'];
    assert(colon@ =~= seq![':']);
    let c = match find_from(&t, &colon, 0) {
        Some(c) => c,
        None => return None,
    };
    assert(crate::text::occurs_at(t@, colon@, c as int));
    let name_chars = trim_chars(&slice_chars(&t, 0, c));
    assert(t@.subrange(0, c as int) =~= t@.take(c as int));
    let rest = trim_chars(&slice_chars(&t, c + 1, t.len()));
    assert(t@.subrange(c + 1, t@.len() as int) =~= t@.skip(c + 1));
    let name = string_from_chars(name_chars.as_slice());
    let open = vec!['['];
    assert(open@ =~= seq!['[']);
    let (desc, triggers) = match find_from(&rest, &open, 0) {
        Some(b) => {
            let d = trim_chars(&slice_chars(&rest, 0, b));
            assert(rest@.subrange(0, b as int) =~= rest@.take(b as int));
            let e = match find_last(&rest, ']') {
                Some(e) => e,
                None => rest.len(),
            };
            assert(e == bracket_end(rest@));
            let inner = slice_chars(&rest, b + 1, e);
            let pieces = split_commas(&inner);
            (string_from_chars(d.as_slice()), triggers_from(&pieces))
        },
        None => {
            let v: Vec<String> = Vec::new();
            assert(views(v@) =~= Seq::<Seq<char>>::empty());
            (string_from_chars(rest.as_slice()), v)
        },
    };
    let sop_file = concat(name.as_str(), ".md");
    Some(SkillIndexEntry { name, description: desc, trigger_words: triggers, sop_file })
}

fn line_readable(line: &Vec<char>) -> (r: bool)
    ensures
        r == line_ok(line@),
{
    let t = trim_chars(line);
    let ts = string_from_chars(t.as_slice());
    if t.len() == 0 || crate::text::str_starts_with(ts.as_str(), "#") || crate::text::str_starts_with(ts.as_str(), "//") {
        return true;
    }
    let colon = vec![':'];
    assert(colon@ =~= seq![':']);
    match find_from(&t, &colon, 0) {
        Some(c) => {
            let rest = trim_chars(&slice_chars(&t, c + 1, t.len()));
            assert(t@.subrange(c + 1, t@.len() as int) =~= t@.skip(c + 1));
            let open = vec!['['];
            assert(open@ =~= seq!['[']);
            match find_from(&rest, &open, 0) {
                Some(b) => {
                    let e = match find_last(&rest, ']') {
                        Some(e) => e,
                        None => rest.len(),
                    };
                    assert(e == bracket_end(rest@));
                    e >= b + 1
                },
                None => true,
            }
        },
        None => true,
    }
}

/// Whether an index text reads without fault (see `index_ok`): the test to
/// make before `parse_index_text`.
pub fn index_readable(content: &str) -> (r: bool)
    ensures
        r == index_ok(content@),
{
    let ls = split_lines(&chars_of(content));
    let ghost lv = ls@.map_values(|l: Vec<char>| l@);
    let mut i: usize = 0;
    while i < ls.len()
        invariant
            i <= ls.len(),
            lv == ls@.map_values(|l: Vec<char>| l@),
            lv == lines(content@),
            forall|j: int| 0 <= j < i ==> line_ok(#[trigger] lines(content@)[j]),
        decreases ls.len() - i,
    {
        assert(lv[i as int] == ls@[i as int]@);
        if !line_readable(&ls[i]) {
            return false;
        }
        i = i + 1;
    }
    true
}

/// Parses the text of an index file into its entries.
pub fn parse_index_text(content: &str) -> (r: Vec<SkillIndexEntry>)
    requires
        index_ok(content@),
    ensures
        r@.map_values(|e: SkillIndexEntry| e@) == index_entries(content@),
{
    let ls = split_lines(&chars_of(content));
    let ghost all = ls@.map_values(|w: Vec<char>| w@);
    let mut out: Vec<SkillIndexEntry> = Vec::new();
    let mut i: usize = 0;
    while i < ls.len()
        invariant
            i <= ls.len(),
            all == ls@.map_values(|w: Vec<char>| w@),
            all == lines(content@),
            index_ok(content@),
            out@.map_values(|e: SkillIndexEntry| e@) == entries_of(all.take(i as int)),
        decreases ls.len() - i,
    {
        let ghost before = out@.map_values(|e: SkillIndexEntry| e@);
        assert(all.take(i + 1).drop_last() =~= all.take(i as int));
        assert(all.take(i + 1).last() == ls@[i as int]@);
        assert(line_ok(all[i as int]));
        match parse_line(&ls[i]) {
            Some(e) => {
                let ghost ev = e@;
                out.push(e);
                assert(out@.map_values(|e: SkillIndexEntry| e@) =~= before.push(ev));
            },
            None => {},
        }
        i = i + 1;
    }
    assert(all.take(ls.len() as int) =~= all);
    out
}

// ── Matching ─────────────────────────────────────────────────────────

/// Whether some trigger word holds `k` or is held by it.
pub open spec fn trigger_hit(triggers: Seq<Seq<char>>, k: Seq<char>) -> bool {
    exists|i: int|
        0 <= i < triggers.len() && (contains(#[trigger] triggers[i], k) || contains(k, triggers[i]))
}

/// Points one keyword scores against an entry: 3 for the exact name (2
/// when the name holds it), 1 when the description holds it, 2 when a
/// trigger word matches. Names, descriptions and keywords are compared
/// lowercased.
pub open spec fn keyword_hits(e: EntryView, kw: Seq<char>) -> nat {
    let n = lowercase(e.name);
    let d = lowercase(e.description);
    let k = lowercase(kw);
    (if n == k {
        3nat
    } else if contains(n, k) {
        2nat
    } else {
        0nat
    }) + (if contains(d, k) {
        1nat
    } else {
        0nat
    }) + (if trigger_hit(e.trigger_words, k) {
        2nat
    } else {
        0nat
    })
}

/// Points all keywords score against an entry.
pub open spec fn hits(e: EntryView, kws: Seq<Seq<char>>) -> nat
    decreases kws.len(),
{
    if kws.len() == 0 {
        0
    } else {
        hits(e, kws.drop_last()) + keyword_hits(e, kws.last())
    }
}

/// The score that ranks an entry: its points, capped at five per keyword
/// (the normalised score `min(points / (5·keywords), 1)` orders entries
/// the same way).
pub open spec fn capped_hits(e: EntryView, kws: Seq<Seq<char>>) -> nat {
    let h = hits(e, kws);
    let m = 5 * kws.len();
    if h < m {
        h
    } else {
        m
    }
}

/// A ranked match: the entry's position in the index and its capped points.
#[derive(Debug, Clone, Copy, PartialEq, Eq, Structural)]
pub struct SkillMatch {
    pub entry: usize,
    pub hits: u128,
}

/// Matches ranked best first: higher capped points first, index order
/// among equals.
pub open spec fn ranked_before(a: SkillMatch, b: SkillMatch) -> bool {
    a.hits > b.hits || (a.hits == b.hits && a.entry < b.entry)
}

/// `r` ranks exactly the entries that score against the keywords.
pub open spec fn ranking(r: Seq<SkillMatch>, entries: Seq<EntryView>, kws: Seq<Seq<char>>) -> bool {
    &&& forall|a: int, b: int| 0 <= a < b < r.len() ==> ranked_before(#[trigger] r[a], #[trigger] r[b])
    &&& forall|a: int|
        0 <= a < r.len() ==> (#[trigger] r[a]).entry < entries.len() && r[a].hits == capped_hits(
            entries[r[a].entry as int],
            kws,
        ) && r[a].hits > 0
    &&& forall|i: int|
        0 <= i < entries.len() && capped_hits(#[trigger] entries[i], kws) > 0 ==> exists|a: int|
            0 <= a < r.len() && (#[trigger] r[a]).entry == i
}

/// How one keyword scores against an entry, part by part: an exact
/// (lowercased) name scores 3 and a name that only holds the keyword 2; a
/// description holding it adds 1, a matching trigger word 2.
pub proof fn law_keyword_points(e: EntryView, kw: Seq<char>)
    ensures
        ({
            let n = lowercase(e.name);
            let k = lowercase(kw);
            let name_pts: int = if n == k {
                3
            } else if contains(n, k) {
                2
            } else {
                0
            };
            let desc_pts: int = if contains(lowercase(e.description), k) {
                1
            } else {
                0
            };
            let trig_pts: int = if trigger_hit(e.trigger_words, k) {
                2
            } else {
                0
            };
            keyword_hits(e, kw) == name_pts + desc_pts + trig_pts
        }),
        lowercase(e.name) == lowercase(kw) ==> keyword_hits(e, kw) >= 3,
        contains(lowercase(e.name), lowercase(kw)) ==> keyword_hits(e, kw) >= 2,
        contains(lowercase(e.description), lowercase(kw)) ==> keyword_hits(e, kw) >= 1,
        trigger_hit(e.trigger_words, lowercase(kw)) ==> keyword_hits(e, kw) >= 2,
        !contains(lowercase(e.name), lowercase(kw)) && !contains(lowercase(e.description), lowercase(kw))
            && !trigger_hit(e.trigger_words, lowercase(kw)) && lowercase(e.name) != lowercase(kw)
            ==> keyword_hits(e, kw) == 0,
        keyword_hits(e, kw) <= 6,
{
}

proof fn lemma_hits_at_least(e: EntryView, kws: Seq<Seq<char>>, j: int)
    requires
        0 <= j < kws.len(),
    ensures
        hits(e, kws) >= keyword_hits(e, kws[j]),
    decreases kws.len(),
{
    if j < kws.len() - 1 {
        lemma_hits_at_least(e, kws.drop_last(), j);
        assert(kws.drop_last()[j] == kws[j]);
    }
}

/// An entry whose lowercased name holds one of the keywords is always
/// among the matches, with at least 2 points (3 when it is the keyword).
pub proof fn law_name_match_is_ranked(r: Seq<SkillMatch>, entries: Seq<EntryView>, kws: Seq<Seq<char>>, i: int, j: int)
    requires
        ranking(r, entries, kws),
        0 <= i < entries.len(),
        0 <= j < kws.len(),
        contains(lowercase(entries[i].name), lowercase(kws[j])),
    ensures
        exists|a: int| 0 <= a < r.len() && #[trigger] r[a].entry == i && r[a].hits >= 2,
        lowercase(entries[i].name) == lowercase(kws[j]) ==> exists|a: int|
            0 <= a < r.len() && #[trigger] r[a].entry == i && r[a].hits >= 3,
{
    law_keyword_points(entries[i], kws[j]);
    lemma_hits_at_least(entries[i], kws, j);
    assert(capped_hits(entries[i], kws) >= 2);
    let a = choose|a: int| 0 <= a < r.len() && (#[trigger] r[a]).entry == i;
    assert(r[a].entry == i && r[a].hits == capped_hits(entries[i], kws));
}

fn trigger_matches(triggers: &Vec<String>, k: &str) -> (r: bool)
    ensures
        r == trigger_hit(views(triggers@), k@),
{
    let mut i: usize = 0;
    while i < triggers.len()
        invariant
            i <= triggers.len(),
            forall|j: int|
                0 <= j < i ==> !(contains(#[trigger] views(triggers@)[j], k@) || contains(
                    k@,
                    views(triggers@)[j],
                )),
        decreases triggers.len() - i,
    {
        assert(views(triggers@)[i as int] == triggers@[i as int]@);
        if str_contains(triggers[i].as_str(), k) || str_contains(k, triggers[i].as_str()) {
            return true;
        }
        i = i + 1;
    }
    false
}

fn keyword_points(e: &SkillIndexEntry, name_lower: &str, desc_lower: &str, kw: &str) -> (r: u64)
    requires
        name_lower@ == lowercase(e@.name),
        desc_lower@ == lowercase(e@.description),
    ensures
        r == keyword_hits(e@, kw@),
{
    let k = to_lowercase(kw);
    let mut h: u64 = 0;
    if str_eq(name_lower, k.as_str()) {
        h = h + 3;
    } else if str_contains(name_lower, k.as_str()) {
        h = h + 2;
    }
    if str_contains(desc_lower, k.as_str()) {
        h = h + 1;
    }
    if trigger_matches(&e.trigger_words, k.as_str()) {
        h = h + 2;
    }
    h
}

/// Points all keywords score against an entry.
pub fn entry_hits(e: &SkillIndexEntry, keywords: &Vec<String>) -> (r: u128)
    ensures
        r == hits(e@, views(keywords@)),
{
    let ghost kws = views(keywords@);
    let name_lower = to_lowercase(e.name.as_str());
    let desc_lower = to_lowercase(e.description.as_str());
    let mut h: u128 = 0;
    let mut i: usize = 0;
    while i < keywords.len()
        invariant
            i <= keywords.len(),
            kws == views(keywords@),
            name_lower@ == lowercase(e@.name),
            desc_lower@ == lowercase(e@.description),
            h == hits(e@, kws.take(i as int)),
            h <= 6 * i,
        decreases keywords.len() - i,
    {
        assert(kws.take(i + 1).drop_last() =~= kws.take(i as int));
        assert(kws.take(i + 1).last() == keywords@[i as int]@);
        let p = keyword_points(e, name_lower.as_str(), desc_lower.as_str(), keywords[i].as_str());
        h = h + p as u128;
        i = i + 1;
    }
    assert(kws.take(keywords.len() as int) =~= kws);
    h
}

fn insert_ranked(out: &mut Vec<SkillMatch>, m: SkillMatch)
    requires
        forall|a: int, b: int| 0 <= a < b < old(out).len() ==> ranked_before(#[trigger] old(out)[a], #[trigger] old(out)[b]),
        forall|a: int| 0 <= a < old(out).len() ==> (#[trigger] old(out)[a]).entry < m.entry,
    ensures
        forall|a: int, b: int| 0 <= a < b < final(out).len() ==> ranked_before(#[trigger] final(out)[a], #[trigger] final(out)[b]),
        exists|p: int| 0 <= p <= old(out).len() && final(out)@ == old(out)@.insert(p, m),
{
    let mut p: usize = 0;
    while p < out.len() && out[p].hits >= m.hits
        invariant
            p <= out.len(),
            out@ == old(out)@,
            forall|a: int| 0 <= a < p ==> (#[trigger] out[a]).hits >= m.hits,
        decreases out.len() - p,
    {
        p = p + 1;
    }
    proof {
        // every element from `p` on scores less than `m`
        assert forall|a: int| p <= a < out.len() implies (#[trigger] out[a]).hits < m.hits by {
            if a > p {
                assert(ranked_before(out[p as int], out[a]));
            }
        }
    }
    let ghost before = out@;
    out.insert(p, m);
    proof {
        assert forall|a: int, b: int| 0 <= a < b < out.len() implies ranked_before(#[trigger] out[a], #[trigger] out[b]) by {
            if b < p {
                assert(out[a] == before[a] && out[b] == before[b]);
            } else if b == p {
                assert(out[a] == before[a]);
            } else if a == p {
                assert(out[b] == before[b - 1]);
            } else if a < p {
                assert(out[a] == before[a] && out[b] == before[b - 1]);
            } else {
                assert(out[a] == before[a - 1] && out[b] == before[b - 1]);
            }
        }
    }
}

/// The entries of `index` that score against `keywords`, ranked best
/// first (each keyword scores at most five points towards the rank).
pub fn rank_entries(index: &Vec<SkillIndexEntry>, keywords: &Vec<String>) -> (r: Vec<SkillMatch>)
    ensures
        ranking(r@, index@.map_values(|e: SkillIndexEntry| e@), views(keywords@)),
{
    let ghost es = index@.map_values(|e: SkillIndexEntry| e@);
    let ghost kws = views(keywords@);
    let cap: u128 = 5 * (keywords.len() as u128);
    let mut out: Vec<SkillMatch> = Vec::new();
    let mut i: usize = 0;
    while i < index.len()
        invariant
            i <= index.len(),
            cap == 5 * keywords.len(),
            es == index@.map_values(|e: SkillIndexEntry| e@),
            kws == views(keywords@),
            forall|a: int, b: int| 0 <= a < b < out.len() ==> ranked_before(#[trigger] out[a], #[trigger] out[b]),
            forall|a: int|
                0 <= a < out.len() ==> (#[trigger] out[a]).entry < i && out[a].hits == capped_hits(
                    es[out[a].entry as int],
                    kws,
                ) && out[a].hits > 0,
            forall|j: int|
                0 <= j < i && capped_hits(#[trigger] es[j], kws) > 0 ==> exists|a: int|
                    0 <= a < out.len() && (#[trigger] out[a]).entry == j,
        decreases index.len() - i,
    {
        assert(es[i as int] == index@[i as int]@);
        let h = entry_hits(&index[i], keywords);
        let c = if h < cap {
            h
        } else {
            cap
        };
        if c > 0 {
            let ghost before = out@;
            insert_ranked(&mut out, SkillMatch { entry: i, hits: c });
            proof {
                let m = SkillMatch { entry: i, hits: c };
                let p = choose|p: int| 0 <= p <= before.len() && out@ == before.insert(p, m);
                assert forall|a: int| 0 <= a < out.len() implies (#[trigger] out[a]).entry < i + 1
                    && out[a].hits == capped_hits(es[out[a].entry as int], kws) && out[a].hits > 0 by {
                    if a < p {
                        assert(out[a] == before[a]);
                    } else if a > p {
                        assert(out[a] == before[a - 1]);
                    }
                }
                assert forall|j: int| 0 <= j < i + 1 && capped_hits(#[trigger] es[j], kws) > 0 implies exists|a: int|
                    0 <= a < out.len() && (#[trigger] out[a]).entry == j by {
                    if j == i {
                        assert(out[p].entry == j);
                    } else {
                        let a = choose|a: int| 0 <= a < before.len() && (#[trigger] before[a]).entry == j;
                        if a < p {
                            assert(out[a] == before[a]);
                        } else {
                            assert(out[a + 1] == before[a]);
                        }
                    }
                }
            }
        }
        i = i + 1;
    }
    out
}

/// The keywords a concept hint gives: its words, then the generic teaching
/// words.
pub open spec fn hint_keywords(hint: Option<Seq<char>>) -> Seq<Seq<char>> {
    let ws = match hint {
        Some(h) => words(h),
        None => Seq::empty(),
    };
    ws.push("教学"@).push("学习"@)
}

/// The keywords for a concept hint.
pub fn keywords_for(concept_hint: Option<&str>) -> (r: Vec<String>)
    ensures
        views(r@) == hint_keywords(opt_str_view(concept_hint)),
{
    let mut out: Vec<String> = Vec::new();
    match concept_hint {
        Some(h) => {
            let ws = split_words(&chars_of(h));
            let ghost all = ws@.map_values(|w: Vec<char>| w@);
            let mut i: usize = 0;
            while i < ws.len()
                invariant
                    i <= ws.len(),
                    all == ws@.map_values(|w: Vec<char>| w@),
                    views(out@) == all.take(i as int),
                decreases ws.len() - i,
            {
                let ghost before = views(out@);
                out.push(string_from_chars(ws[i].as_slice()));
                assert(views(out@) =~= before.push(all[i as int]));
                assert(all.take(i + 1) =~= all.take(i as int).push(all[i as int]));
                i = i + 1;
            }
            assert(all.take(ws.len() as int) =~= all);
        },
        None => {
            assert(views(out@) =~= Seq::<Seq<char>>::empty());
        },
    }
    let ghost before = views(out@);
    out.push(owned("教学"));
    out.push(owned("学习"));
    assert(views(out@) =~= before.push("教学"@).push("学习"@));
    out
}

// ── The loader ───────────────────────────────────────────────────────

/// The skill index of a skills directory. The caller reads the directory's
/// `_index.md` (and the SOP files of the matches); a missing index gives
/// no entries.
pub struct SkillLoader {
    index: Vec<SkillIndexEntry>,
    skills_dir: String,
}

/// The entries an index text gives (none when the file is missing).
pub open spec fn loaded_entries(index_text: Option<Seq<char>>) -> Seq<EntryView> {
    match index_text {
        Some(t) => index_entries(t),
        None => Seq::empty(),
    }
}

/// Whether an index text, if any, reads without fault.
pub open spec fn text_ok(index_text: Option<Seq<char>>) -> bool {
    match index_text {
        Some(t) => index_ok(t),
        None => true,
    }
}

/// The smaller of a length and a count.
pub open spec fn min_len(len: nat, n: usize) -> int {
    if len < n {
        len as int
    } else {
        n as int
    }
}

/// A match with its entry: what `resolve` hands the caller to load.
#[derive(Debug)]
pub struct ResolvedSkill {
    pub entry: SkillIndexEntry,
    pub hits: u128,
    /// Five points per keyword: the normalised score is `hits / max_possible`.
    pub max_possible: u128,
}

impl SkillLoader {
    /// The index entries.
    pub closed spec fn entries(&self) -> Seq<EntryView> {
        self.index@.map_values(|e: SkillIndexEntry| e@)
    }

    /// The skills directory.
    pub closed spec fn dir(&self) -> Seq<char> {
        self.skills_dir@
    }

    /// A loader for `skills_dir` whose index file holds `index_text`
    /// (`None` when it is missing).
    pub fn new(skills_dir: &str, index_text: Option<&str>) -> (r: SkillLoader)
        requires
            text_ok(
                match index_text {
                    Some(t) => Some(t@),
                    None => None,
                },
            ),
        ensures
            r.dir() == skills_dir@,
            r.entries() == loaded_entries(
                match index_text {
                    Some(t) => Some(t@),
                    None => None,
                },
            ),
    {
        let index = match index_text {
            Some(t) => parse_index_text(t),
            None => {
                let v: Vec<SkillIndexEntry> = Vec::new();
                assert(v@.map_values(|e: SkillIndexEntry| e@) =~= Seq::<EntryView>::empty());
                v
            },
        };
        SkillLoader { index, skills_dir: owned(skills_dir) }
    }

    /// Re-reads the index (e.g. after a skill was crystallized).
    pub fn reload(&mut self, index_text: Option<&str>)
        requires
            text_ok(
                match index_text {
                    Some(t) => Some(t@),
                    None => None,
                },
            ),
        ensures
            final(self).dir() == old(self).dir(),
            final(self).entries() == loaded_entries(
                match index_text {
                    Some(t) => Some(t@),
                    None => None,
                },
            ),
    {
        self.index = match index_text {
            Some(t) => parse_index_text(t),
            None => {
                let v: Vec<SkillIndexEntry> = Vec::new();
                assert(v@.map_values(|e: SkillIndexEntry| e@) =~= Seq::<EntryView>::empty());
                v
            },
        };
    }

    /// The skills directory.
    pub fn skills_dir(&self) -> (r: &str)
        ensures
            r@ == self.dir(),
    {
        self.skills_dir.as_str()
    }

    /// The index entries that score against `keywords`, best first.
    pub fn match_skills(&self, keywords: &Vec<String>) -> (r: Vec<SkillMatch>)
        ensures
            ranking(r@, self.entries(), views(keywords@)),
    {
        rank_entries(&self.index, keywords)
    }

    /// The best `top_n` matches for a concept hint, with their entries; the
    /// caller loads their SOP files.
    pub fn resolve(&self, concept_hint: Option<&str>, top_n: usize) -> (r: Vec<ResolvedSkill>)
        ensures
            ({
                let kws = hint_keywords(opt_str_view(concept_hint));
                exists|m: Seq<SkillMatch>|
                    #[trigger] ranking(m, self.entries(), kws) && r.len() == min_len(m.len(), top_n)
                        && forall|i: int|
                        0 <= i < r.len() ==> (#[trigger] r[i]).entry@ == self.entries()[m[i].entry as int]
                            && r[i].hits == m[i].hits && r[i].max_possible == 5 * kws.len()
            }),
    {
        let kws = keywords_for(concept_hint);
        let ms = rank_entries(&self.index, &kws);
        let n: usize = if ms.len() < top_n {
            ms.len()
        } else {
            top_n
        };
        let cap: u128 = 5 * (kws.len() as u128);
        let mut out: Vec<ResolvedSkill> = Vec::new();
        let mut i: usize = 0;
        while i < n
            invariant
                i <= n,
                n <= ms.len(),
                out.len() == i,
                cap == 5 * views(kws@).len(),
                ranking(ms@, self.entries(), views(kws@)),
                forall|j: int|
                    0 <= j < i ==> (#[trigger] out[j]).entry@ == self.entries()[ms@[j].entry as int]
                        && out[j].hits == ms@[j].hits && out[j].max_possible == cap,
            decreases n - i,
        {
            let k = ms[i].entry;
            assert(self.entries()[k as int] == self.index@[k as int]@);
            out.push(ResolvedSkill { entry: self.index[k].copy(), hits: ms[i].hits, max_possible: cap });
            i = i + 1;
        }
        proof {
            let kv = hint_keywords(opt_str_view(concept_hint));
            assert(views(kws@) == kv);
            assert(ranking(ms@, self.entries(), kv));
            assert(out.len() == min_len(ms@.len(), top_n));
            assert(forall|i: int|
                0 <= i < out.len() ==> (#[trigger] out[i]).entry@ == self.entries()[ms@[i].entry as int]
                    && out[i].hits == ms@[i].hits && out[i].max_possible == 5 * kv.len());
        }
        out
    }
}

/// A resolved skill's match percentage: its points over the points
/// possible, capped at 1, times 100, rounded to the nearest whole number
/// with ties going to the even one; 0 when no points were possible.
pub open spec fn percent_of(hits: nat, max_possible: nat) -> nat {
    if max_possible == 0 {
        0
    } else {
        let h = if hits < max_possible {
            hits
        } else {
            max_possible
        };
        let q = (h * 100) / max_possible;
        let r = (h * 100) % max_possible;
        if 2 * r > max_possible || (2 * r == max_possible && q % 2 == 1) {
            (q + 1) as nat
        } else {
            q
        }
    }
}

/// The match percentage shown for a resolved skill (see `percent_of`).
pub fn match_percent(hits: u128, max_possible: u128) -> (r: u64)
    ensures
        r == percent_of(hits as nat, max_possible as nat),
{
    if max_possible == 0 {
        return 0;
    }
    let h: u128 = if hits < max_possible {
        hits
    } else {
        max_possible
    };
    if h == max_possible {
        proof {
            vstd::arithmetic::div_mod::lemma_fundamental_div_mod_converse(
                h * 100,
                max_possible as int,
                100,
                0,
            );
        }
        return 100;
    }
    // 100 * h = q * max_possible + acc, built one `h` at a time without
    // leaving the range of `max_possible`.
    let mut q: u64 = 0;
    let mut acc: u128 = 0;
    let mut i: u64 = 0;
    while i < 100
        invariant
            i <= 100,
            h < max_possible,
            acc < max_possible,
            q <= i,
            q * max_possible + acc == i * h,
        decreases 100 - i,
    {
        proof {
            assert((i + 1) * h == i * h + h) by (nonlinear_arith);
            assert((q + 1) * max_possible == q * max_possible + max_possible) by (nonlinear_arith);
        }
        if acc >= max_possible - h {
            acc = acc - (max_possible - h);
            q = q + 1;
        } else {
            acc = acc + h;
        }
        i = i + 1;
    }
    proof {
        vstd::arithmetic::div_mod::lemma_fundamental_div_mod_converse(
            h * 100,
            max_possible as int,
            q as int,
            acc as int,
        );
    }
    let over = max_possible - acc;
    if acc > over || (acc == over && q % 2 == 1) {
        q + 1
    } else {
        q
    }
}

/// The lines of the loaded SOPs among `items` (description, match
/// percentage, SOP text if it could be loaded), in order.
pub open spec fn sop_sections(items: Seq<(Seq<char>, u64, Option<Seq<char>>)>) -> Seq<char>
    decreases items.len(),
{
    if items.len() == 0 {
        Seq::empty()
    } else {
        let it = items.last();
        sop_sections(items.drop_last()) + match it.2 {
            Some(sop) => "### "@ + it.0 + " (匹配度: "@ + dec(it.1 as nat) + "%)\n"@ + sop + "\n---\n"@,
            None => Seq::empty(),
        }
    }
}

/// Whether some SOP among `items` was loaded.
pub open spec fn any_loaded(items: Seq<(Seq<char>, u64, Option<Seq<char>>)>) -> bool {
    exists|i: int| 0 <= i < items.len() && (#[trigger] items[i]).2 is Some
}

/// The views of SOP items.
pub open spec fn sop_item_views(items: Seq<(String, u64, Option<String>)>) -> Seq<(Seq<char>, u64, Option<Seq<char>>)> {
    items.map_values(|it: (String, u64, Option<String>)| (it.0@, it.1, match it.2 {
        Some(x) => Some(x@),
        None => None,
    }))
}

/// The block of matched skills' SOPs handed to the proposer: a heading,
/// then each loaded SOP under its skill's description and match
/// percentage; nothing when no SOP could be loaded.
pub fn sop_context(items: &Vec<(String, u64, Option<String>)>) -> (r: String)
    ensures
        r@ == if any_loaded(sop_item_views(items@)) {
            "[相关技能SOP]\n"@ + sop_sections(sop_item_views(items@))
        } else {
            Seq::<char>::empty()
        },
{
    let ghost all = sop_item_views(items@);
    let mut body = String::new();
    let mut loaded = false;
    let mut i: usize = 0;
    while i < items.len()
        invariant
            i <= items.len(),
            all == sop_item_views(items@),
            body@ == sop_sections(all.take(i as int)),
            loaded == any_loaded(all.take(i as int)),
        decreases items.len() - i,
    {
        proof {
            assert(all.take(i + 1).drop_last() =~= all.take(i as int));
            assert(all.take(i + 1).last() == all[i as int]);
        }
        match &items[i].2 {
            Some(sop) => {
                push_str(&mut body, "### ");
                push_str(&mut body, items[i].0.as_str());
                push_str(&mut body, " (匹配度: ");
                push_str(&mut body, decimal(items[i].1).as_str());
                push_str(&mut body, "%)\n");
                push_str(&mut body, sop.as_str());
                push_str(&mut body, "\n---\n");
                loaded = true;
                proof {
                    assert(all.take(i + 1)[i as int].2 is Some);
                }
            },
            None => {
                proof {
                    assert forall|k: int| 0 <= k < i + 1 && (#[trigger] all.take(i + 1)[k]).2 is Some implies
                        all.take(i as int)[k].2 is Some by {
                        assert(k < i);
                    }
                }
            },
        }
        i = i + 1;
    }
    assert(all.take(items.len() as int) =~= all);
    if loaded {
        concat("[相关技能SOP]\n", body.as_str())
    } else {
        String::new()
    }
}

/// Whether `s` ends with `p`.
pub open spec fn ends_with(s: Seq<char>, p: Seq<char>) -> bool {
    p.len() <= s.len() && s.skip(s.len() - p.len()) == p
}

/// `s` with every trailing `.md` removed.
pub open spec fn without_md(s: Seq<char>) -> Seq<char>
    decreases s.len(),
{
    if s.len() >= 3 && ends_with(s, ".md"@) {
        without_md(s.take(s.len() - 3))
    } else {
        s
    }
}

/// Whether a file of the skills directory holds a crystallized skill: a
/// `.md` file that is neither the index (`_…`) nor a built-in SOP
/// (`tais_…`).
pub open spec fn is_crystallized_file(name: Seq<char>) -> bool {
    ends_with(name, ".md"@) && !starts_with(name, "_"@) && !starts_with(name, "tais_"@)
}

/// The skill names among some file names, in order.
pub open spec fn crystallized_of(names: Seq<Seq<char>>) -> Seq<Seq<char>>
    decreases names.len(),
{
    if names.len() == 0 {
        Seq::empty()
    } else {
        let rest = crystallized_of(names.drop_last());
        if is_crystallized_file(names.last()) {
            rest.push(without_md(names.last()))
        } else {
            rest
        }
    }
}

fn ends_with_md(s: &Vec<char>) -> (r: bool)
    ensures
        r == ends_with(s@, ".md"@),
{
    proof {
        reveal_strlit(".md");
    }
    let n = s.len();
    if n < 3 {
        return false;
    }
    let r = s[n - 3] == '.' && s[n - 2] == 'm' && s[n - 1] == 'd';
    proof {
        if r {
            assert(s@.skip(n - 3) =~= ".md"@);
        } else {
            if s@.skip(n - 3) == ".md"@ {
                assert(s@.skip(n - 3)[0] == s@[n - 3]);
                assert(s@.skip(n - 3)[1] == s@[n - 2]);
                assert(s@.skip(n - 3)[2] == s@[n - 1]);
            }
        }
    }
    r
}

fn strip_md(s: &Vec<char>) -> (r: Vec<char>)
    ensures
        r@ == without_md(s@),
{
    let mut k: usize = s.len();
    let mut cur = s.clone();
    assert(cur@ =~= s@.take(k as int));
    while k >= 3 && ends_with_md(&cur)
        invariant
            k <= s.len(),
            cur@ == s@.take(k as int),
            without_md(s@) == without_md(cur@),
        decreases k,
    {
        k = k - 3;
        let next = slice_chars(&cur, 0, k);
        assert(next@ =~= cur@.take(k as int));
        assert(next@ =~= s@.take(k as int));
        cur = next;
    }
    cur
}

/// The crystallized skills among the file names of the skills directory,
/// each without its `.md`, in the order given.
pub fn crystallized_names(file_names: &Vec<String>) -> (r: Vec<String>)
    ensures
        views(r@) == crystallized_of(views(file_names@)),
{
    let ghost all = views(file_names@);
    let mut out: Vec<String> = Vec::new();
    let mut i: usize = 0;
    while i < file_names.len()
        invariant
            i <= file_names.len(),
            all == views(file_names@),
            views(out@) == crystallized_of(all.take(i as int)),
        decreases file_names.len() - i,
    {
        assert(all.take(i + 1).drop_last() =~= all.take(i as int));
        assert(all.take(i + 1).last() == file_names@[i as int]@);
        let cs = chars_of(file_names[i].as_str());
        let keep = ends_with_md(&cs) && !str_starts_with(file_names[i].as_str(), "_") && !str_starts_with(
            file_names[i].as_str(),
            "tais_",
        );
        if keep {
            let ghost before = views(out@);
            let stem = strip_md(&cs);
            out.push(string_from_chars(stem.as_slice()));
            assert(views(out@) =~= before.push(without_md(cs@)));
        }
        i = i + 1;
    }
    assert(all.take(file_names.len() as int) =~= all);
    out
}

// ── Crystallizing ────────────────────────────────────────────────────

/// Result of a crystallization.
#[derive(Debug)]
pub struct CrystallizeResult {
    pub skill_name: String,
    pub sop_path: String,
    pub index_updated: bool,
    pub message: String,
}

/// Items as a bullet list with `marker` before each, one per line.
pub open spec fn bullets(items: Seq<Seq<char>>, marker: Seq<char>) -> Seq<char> {
    join(items.map_values(|s: Seq<char>| marker + s), "\n"@)
}

/// The SOP document of a crystallized skill.
pub open spec fn sop_document(
    name: Seq<char>,
    desc: Seq<char>,
    strategy: Seq<char>,
    pitfalls: Seq<Seq<char>>,
    indicators: Seq<Seq<char>>,
    timestamp: Seq<char>,
) -> Seq<char> {
    let p = if pitfalls.len() == 0 { "（暂无记录）"@ } else { bullets(pitfalls, "- ❌ "@) };
    let ind = if indicators.len() == 0 { "- 学生能正确回答相关练习"@ } else { bullets(indicators, "- "@) };
    "# "@ + name + ": "@ + desc + "\n\n## 核心策略\n"@ + strategy + "\n\n## 常见坑点\n"@ + p
        + "\n\n## 成功指标\n"@ + ind + "\n\n## 元信息\n- 结晶时间: "@ + timestamp
        + "\n- 来源: TAIS 习惯引擎自动结晶\n- 技能类型: 自进化生成\n"@
}

fn bullet_list(items: &Vec<String>, marker: &str) -> (r: String)
    ensures
        r@ == bullets(views(items@), marker@),
{
    let mut parts: Vec<Vec<char>> = Vec::new();
    let mut i: usize = 0;
    while i < items.len()
        invariant
            i <= items.len(),
            parts@.map_values(|w: Vec<char>| w@) == views(items@).take(i as int).map_values(
                |s: Seq<char>| marker@ + s,
            ),
        decreases items.len() - i,
    {
        let ghost before = parts@.map_values(|w: Vec<char>| w@);
        let line = concat(marker, items[i].as_str());
        parts.push(chars_of(line.as_str()));
        assert(parts@.map_values(|w: Vec<char>| w@) =~= before.push(marker@ + items@[i as int]@));
        assert(views(items@).take(i + 1).map_values(|s: Seq<char>| marker@ + s) =~= views(items@).take(
            i as int,
        ).map_values(|s: Seq<char>| marker@ + s).push(marker@ + items@[i as int]@));
        i = i + 1;
    }
    assert(views(items@).take(items.len() as int) =~= views(items@));
    let joined = join_lines(&parts);
    proof {
        reveal_strlit("\n");
        assert(seq!['\n'] =~= "\n"@);
    }
    string_from_chars(joined.as_slice())
}

/// Writes the SOP document of a skill, stamped with `timestamp`.
pub fn sop_text(
    name: &str,
    description: &str,
    strategy: &str,
    pitfalls: &Vec<String>,
    indicators: &Vec<String>,
    timestamp: &str,
) -> (r: String)
    ensures
        r@ == sop_document(name@, description@, strategy@, views(pitfalls@), views(indicators@), timestamp@),
{
    let p = if pitfalls.len() == 0 {
        owned("（暂无记录）")
    } else {
        bullet_list(pitfalls, "- ❌ ")
    };
    let ind = if indicators.len() == 0 {
        owned("- 学生能正确回答相关练习")
    } else {
        bullet_list(indicators, "- ")
    };
    let mut s = concat("# ", name);
    push_str(&mut s, ": ");
    push_str(&mut s, description);
    push_str(&mut s, "\n\n## 核心策略\n");
    push_str(&mut s, strategy);
    push_str(&mut s, "\n\n## 常见坑点\n");
    push_str(&mut s, p.as_str());
    push_str(&mut s, "\n\n## 成功指标\n");
    push_str(&mut s, ind.as_str());
    push_str(&mut s, "\n\n## 元信息\n- 结晶时间: ");
    push_str(&mut s, timestamp);
    push_str(&mut s, "\n- 来源: TAIS 习惯引擎自动结晶\n- 技能类型: 自进化生成\n");
    s
}

/// The index text after adding a crystallized skill, or `None` when the
/// skill (`name:`) is already indexed. The line `name: desc [自进化]` goes
/// right after the `## Self-Evolved Skills` heading, or into such a
/// section appended at the end.
pub open spec fn indexed_with(content: Seq<char>, name: Seq<char>, desc: Seq<char>) -> Option<Seq<char>> {
    if contains(content, name + ":"@) {
        None
    } else {
        let ls = lines(content);
        let at = match find_from_spec(content, "## Self-Evolved Skills"@, 0) {
            Some(p) => lines(content.take(p)).len() as int,
            None => ls.len() as int,
        };
        let entry = name + ": "@ + desc + " [自进化]"@;
        let ls2 = if at < ls.len() {
            ls.insert(at + 1, entry)
        } else {
            ls + seq![Seq::<char>::empty(), "## Self-Evolved Skills"@, entry]
        };
        Some(join(ls2, seq!['\n']) + seq!['\n'])
    }
}

/// A crystallized skill reads back under its own name: the index line
/// `name: desc [自进化]` that `indexed_with` adds describes the skill
/// `name` with the SOP file `name.md`, whatever the description, when the
/// name is not blank, holds no `:` or whitespace, and does not open like a
/// heading or comment.
pub proof fn law_indexed_line_reads_back(name: Seq<char>, desc: Seq<char>)
    requires
        name.len() > 0,
        forall|i: int| 0 <= i < name.len() ==> !is_ws(#[trigger] name[i]) && name[i] != ':',
        name[0] != '#',
        name[0] != '/',
    ensures
        entry_of_line(name + ": "@ + desc + " [自进化]"@) matches Some(e) && e.name == name && e.sop_file == name
            + ".md"@,
        line_ok(name + ": "@ + desc + " [自进化]"@),
{
    reveal_strlit(": ");
    reveal_strlit(" [自进化]");
    reveal_strlit("#");
    reveal_strlit("//");
    let line = name + ": "@ + desc + " [自进化]"@;
    let n = name.len() as int;
    assert(line[0] == name[0]);
    assert(line.last() == ']');
    assert(!is_ws(']'));
    assert(trim(line) == line);
    assert(!starts_with(line, "#"@)) by {
        if starts_with(line, "#"@) {
            assert(line.subrange(0, 1)[0] == line[0]);
        }
    }
    assert(!starts_with(line, "//"@)) by {
        if starts_with(line, "//"@) {
            assert(line.subrange(0, 2)[0] == line[0]);
        }
    }
    assert(line[n] == ':');
    assert(occurs_at(line, seq![':'], n)) by {
        assert(line.subrange(n, n + 1) =~= seq![':']);
    }
    assert forall|j: int| 0 <= j < n implies !occurs_at(line, seq![':'], j) by {
        assert(line[j] == name[j]);
        if occurs_at(line, seq![':'], j) {
            assert(line.subrange(j, j + 1)[0] == line[j]);
        }
    }
    assert(first_occurrence_from(line, seq![':'], 0, n));
    let c = choose|i: int| first_occurrence_from(line, seq![':'], 0, i);
    lemma_first_occurrence_unique(line, seq![':'], 0, c, n);
    assert(find_from_spec(line, seq![':'], 0) == Some(n));
    assert(line.take(n) =~= name);
    assert(name.last() == name[n - 1]);
    assert(trim(name) == name);
    let after = line.skip(n + 1);
    assert(after.last() == ']');
    lemma_trim_keeps_last(after);
    let rest = trim(after);
    assert(last_index(rest, ']') == Some(rest.len() - 1));
    if let Some(b) = find_from_spec(rest, seq!['['], 0) {
        assert(first_occurrence_from(rest, seq!['['], 0, b));
        assert(rest.subrange(b, b + 1)[0] == rest[b]);
        assert(rest[b] == '[');
    }
}

proof fn lemma_trim_keeps_last(s: Seq<char>)
    requires
        s.len() > 0,
        !is_ws(s.last()),
    ensures
        trim(s).len() > 0,
        trim(s).last() == s.last(),
    decreases s.len(),
{
    if is_ws(s[0]) {
        assert(s.len() > 1);
        assert(s.drop_first().last() == s.last());
        lemma_trim_keeps_last(s.drop_first());
    }
}

proof fn lemma_trim_drop_ws(s: Seq<char>)
    requires
        s.len() > 0,
        is_ws(s.last()),
    ensures
        trim(s) == trim(s.drop_last()),
    decreases s.len(),
{
    if is_ws(s[0]) {
        if s.len() == 1 {
            assert(s.drop_first() =~= s.drop_last());
        } else {
            assert(s.drop_first().last() == s.last());
            lemma_trim_drop_ws(s.drop_first());
            assert(s.drop_first().drop_last() =~= s.drop_last().drop_first());
            assert(s.drop_last()[0] == s[0]);
        }
    }
}

/// A line reads as it did without the `\r` that ended it.
proof fn lemma_line_ok_strip_cr(l: Seq<char>)
    ensures
        line_ok(strip_cr(l)) == line_ok(l),
{
    if l.len() > 0 && l.last() == '\r' {
        assert(is_ws('\r'));
        lemma_trim_drop_ws(l);
    }
}

proof fn lemma_entry_listed(ls: Seq<Seq<char>>, k: int, e: EntryView)
    requires
        0 <= k < ls.len(),
        entry_of_line(ls[k]) == Some(e),
    ensures
        entries_of(ls).contains(e),
    decreases ls.len(),
{
    if k == ls.len() - 1 {
        assert(entries_of(ls) == entries_of(ls.drop_last()).push(e));
        assert(entries_of(ls)[entries_of(ls).len() - 1] == e);
    } else {
        assert(ls.drop_last()[k] == ls[k]);
        lemma_entry_listed(ls.drop_last(), k, e);
        let prev = entries_of(ls.drop_last());
        let j = choose|j: int| 0 <= j < prev.len() && prev[j] == e;
        match entry_of_line(ls.last()) {
            Some(f) => {
                assert(entries_of(ls) == prev.push(f));
                assert(entries_of(ls)[j] == e);
            },
            None => {},
        }
    }
}

/// A crystallized skill is found under its name: when `indexed_with` adds
/// the skill `name` to an index, the new index lists an entry named `name`
/// whose SOP file is `name.md`, so that a loader reloaded with it matches
/// the skill. This holds when the name is not blank, holds no `:` or
/// whitespace and does not open like a heading or comment, and the
/// description is one line.
pub proof fn law_crystallized_skill_is_indexed(content: Seq<char>, name: Seq<char>, desc: Seq<char>)
    requires
        name.len() > 0,
        forall|i: int| 0 <= i < name.len() ==> !is_ws(#[trigger] name[i]) && name[i] != ':',
        name[0] != '#',
        name[0] != '/',
        no_newline(desc),
    ensures
        indexed_with(content, name, desc) matches Some(t) ==> exists|e: EntryView|
            #[trigger] index_entries(t).contains(e) && e.name == name && e.sop_file == name + ".md"@,
        indexed_with(content, name, desc) matches Some(t) ==> (index_ok(content) ==> index_ok(t)),
{
    if let Some(t) = indexed_with(content, name, desc) {
        reveal_strlit("## Self-Evolved Skills");
        reveal_strlit(": ");
        reveal_strlit(" [自进化]");
        let ls = lines(content);
        let at = match find_from_spec(content, "## Self-Evolved Skills"@, 0) {
            Some(p) => lines(content.take(p)).len() as int,
            None => ls.len() as int,
        };
        let entry = name + ": "@ + desc + " [自进化]"@;
        let heading = "## Self-Evolved Skills"@;
        let ls2 = if at < ls.len() {
            ls.insert(at + 1, entry)
        } else {
            ls + seq![Seq::<char>::empty(), heading, entry]
        };
        let pos: int = if at < ls.len() {
            at + 1
        } else {
            ls.len() + 2int
        };
        assert(t == join(ls2, seq!['\n']) + seq!['\n']);
        lemma_lines_have_no_newline(content, 0, Seq::empty());
        assert(is_ws('\n'));
        assert(no_newline(entry)) by {
            assert forall|j: int| 0 <= j < entry.len() implies entry[j] != '\n' by {
                if j < name.len() {
                    assert(entry[j] == name[j]);
                } else if j < name.len() + 2 {
                    assert(entry[j] == ": "@[j - name.len()]);
                } else if j < name.len() + 2 + desc.len() {
                    assert(entry[j] == desc[j - name.len() - 2]);
                } else {
                    assert(entry[j] == " [自进化]"@[j - name.len() - 2 - desc.len()]);
                }
            }
        }
        assert(no_newline(heading));
        assert(no_newline(Seq::<char>::empty()));
        assert forall|k: int| 0 <= k < ls2.len() implies no_newline(#[trigger] ls2[k]) by {
            if at < ls.len() {
                if k < at + 1 {
                    assert(ls2[k] == ls[k]);
                } else if k == at + 1 {
                    assert(ls2[k] == entry);
                } else {
                    assert(ls2[k] == ls[k - 1]);
                }
            } else {
                if k < ls.len() {
                    assert(ls2[k] == ls[k]);
                }
            }
        }
        assert(ls2[pos] == entry);
        lemma_lines_of_joined(ls2);
        assert(entry.last() == ']');
        assert(lines(t)[pos] == entry);
        law_indexed_line_reads_back(name, desc);
        let e = entry_of_line(entry)->0;
        lemma_entry_listed(lines(t), pos, e);
        assert(index_entries(t).contains(e));
        if index_ok(content) {
            assert(trim(heading) == heading);
            assert(heading.subrange(0, 1) =~= "#"@) by {
                reveal_strlit("#");
            }
            assert(line_ok(heading));
            assert(line_ok(Seq::<char>::empty()));
            assert forall|i: int| 0 <= i < lines(t).len() implies line_ok(#[trigger] lines(t)[i]) by {
                assert(lines(t)[i] == strip_cr(ls2[i]));
                lemma_line_ok_strip_cr(ls2[i]);
                if at < ls.len() {
                    if i < at + 1 {
                        assert(ls2[i] == ls[i]);
                        assert(line_ok(lines(content)[i]));
                    } else if i > at + 1 {
                        assert(ls2[i] == ls[i - 1]);
                        assert(line_ok(lines(content)[i - 1]));
                    }
                } else {
                    if i < ls.len() {
                        assert(ls2[i] == ls[i]);
                        assert(line_ok(lines(content)[i]));
                    } else if i == ls.len() {
                        assert(ls2[i] == Seq::<char>::empty());
                    } else if i == ls.len() + 1 {
                        assert(ls2[i] == heading);
                    }
                }
            }
        }
    }
}

/// The index text with a crystallized skill added, unless already indexed.
pub fn index_with_skill(content: &str, name: &str, description: &str) -> (r: Option<String>)
    ensures
        match indexed_with(content@, name@, description@) {
            Some(t) => r matches Some(x) && x@ == t,
            None => r is None,
        },
{
    let key = concat(name, ":");
    if str_contains(content, key.as_str()) {
        return None;
    }
    let cs = chars_of(content);
    let mut ls = split_lines(&cs);
    let heading = chars_of("## Self-Evolved Skills");
    let at: usize = match find_from(&cs, &heading, 0) {
        Some(p) => {
            let before = slice_chars(&cs, 0, p);
            assert(before@ =~= cs@.take(p as int));
            let bl = split_lines(&before);
            proof {
                assert(bl@.map_values(|w: Vec<char>| w@).len() == bl.len());
            }
            bl.len()
        },
        None => {
            proof {
                assert(ls@.map_values(|w: Vec<char>| w@).len() == ls.len());
            }
            ls.len()
        },
    };
    let entry_s = concat(concat(concat(name, ": ").as_str(), description).as_str(), " [自进化]");
    let entry = chars_of(entry_s.as_str());
    let ghost l0 = ls@.map_values(|w: Vec<char>| w@);
    proof {
        assert(l0.len() == ls.len());
    }
    if at < ls.len() {
        ls.insert(at + 1, entry);
        assert(ls@.map_values(|w: Vec<char>| w@) =~= l0.insert(at + 1, entry_s@));
    } else {
        ls.push(Vec::new());
        ls.push(chars_of("## Self-Evolved Skills"));
        ls.push(entry);
        assert(ls@.map_values(|w: Vec<char>| w@) =~= l0 + seq![
            Seq::<char>::empty(),
            "## Self-Evolved Skills"@,
            entry_s@,
        ]);
    }
    let mut joined = join_lines(&ls);
    joined.push('\n');
    Some(string_from_chars(joined.as_slice()))
}

} // verus!
