//! Hot memory: a short file of persistent facts injected into every agent
//! turn, kept small (what is read is at most 500 characters).
//!
//! `HotMemory` holds the file's text; the caller reads the file into it and
//! writes `content()` back after a successful edit.

use vstd::prelude::*;
use crate::lines::{join_lines, lines, replace_all, replaced, split_lines};
use crate::text::{
    lemma_join_contains, lemma_occurs_concat, lemma_occurs_nested, occurs_at, byte_len, chars_of, concat, contains, contains_chars, dec, decimal, join, owned,
    push_str, slice_chars, str_contains, string_from_chars, trim, trim_chars, utf8_len,
};

verus! {

/// Most characters `read` returns.
pub const MAX_CHARS: usize = 500;

/// Text of a freshly created memory file.
pub open spec fn initial_content() -> Seq<char> {
    "# TAIS Hot Memory\n§\n"@
}

/// A line holding a fact: not a `#` heading and not blank.
pub open spec fn is_fact_line(l: Seq<char>) -> bool {
    !(l.len() > 0 && l[0] == '#') && trim(l).len() > 0
}

/// The fact lines among `ls`, in order.
pub open spec fn keep_facts(ls: Seq<Seq<char>>) -> Seq<Seq<char>>
    decreases ls.len(),
{
    if ls.len() == 0 {
        Seq::empty()
    } else if is_fact_line(ls.last()) {
        keep_facts(ls.drop_last()).push(ls.last())
    } else {
        keep_facts(ls.drop_last())
    }
}

/// The lines among `ls` that do not hold `sub`, in order.
pub open spec fn lines_without(ls: Seq<Seq<char>>, sub: Seq<char>) -> Seq<Seq<char>>
    decreases ls.len(),
{
    if ls.len() == 0 {
        Seq::empty()
    } else if !contains(ls.last(), sub) {
        lines_without(ls.drop_last(), sub).push(ls.last())
    } else {
        lines_without(ls.drop_last(), sub)
    }
}

/// The fact lines of a memory file.
pub open spec fn fact_lines(content: Seq<char>) -> Seq<Seq<char>> {
    keep_facts(lines(content))
}

/// The facts of a memory file, one per line.
pub open spec fn facts_text(content: Seq<char>) -> Seq<char> {
    join(fact_lines(content), seq!['\n'])
}

/// `s` when it has at most `n` characters; else its first `n - 3`
/// characters followed by `...`, `n` characters in all.
pub open spec fn clip_chars(s: Seq<char>, n: int) -> Seq<char> {
    if s.len() > n {
        s.take(n - 3) + "..."@
    } else {
        s
    }
}

/// What `read` returns: the facts, cut to `MAX_CHARS` characters.
pub open spec fn read_spec(content: Seq<char>) -> Seq<char> {
    clip_chars(facts_text(content), MAX_CHARS as int)
}

/// `ls` without its trailing blank lines.
pub open spec fn drop_trailing_blank(ls: Seq<Seq<char>>) -> Seq<Seq<char>>
    decreases ls.len(),
{
    if ls.len() > 0 && trim(ls.last()).len() == 0 {
        drop_trailing_blank(ls.drop_last())
    } else {
        ls
    }
}

/// Index of the last line holding `§`.
pub open spec fn last_mark(ls: Seq<Seq<char>>) -> Option<int>
    decreases ls.len(),
{
    if ls.len() == 0 {
        None
    } else if contains(ls.last(), seq!['§']) {
        Some(ls.len() - 1)
    } else {
        last_mark(ls.drop_last())
    }
}

/// The file text after adding the (trimmed) fact `fact`: the line
/// `fact §` goes right after the last line holding `§` (or at the end),
/// trailing blank lines are dropped and the text ends with a newline.
pub open spec fn added_content(content: Seq<char>, fact: Seq<char>) -> Seq<char> {
    let ls = drop_trailing_blank(lines(content));
    let nl = fact + " §"@;
    let ls2 = match last_mark(ls) {
        Some(p) => ls.insert(p + 1, nl),
        None => ls.push(nl),
    };
    join(ls2, seq!['\n']) + seq!['\n']
}

/// Message of an add refused because the facts would exceed 700 characters.
pub open spec fn full_error(n: nat) -> Seq<char> {
    "memory full ("@ + dec(n) + " chars), remove old entries first"@
}

/// The outcome of adding `fact` to a memory file: the new text, or the
/// message of the refusal.
pub open spec fn add_outcome(content: Seq<char>, fact: Seq<char>) -> Result<Seq<char>, Seq<char>> {
    let t = trim(fact);
    if t.len() == 0 {
        Err("empty fact"@)
    } else if contains(content, t) {
        Err("duplicate"@)
    } else {
        let updated = added_content(content, t);
        let n = facts_text(updated).len();
        if n > MAX_CHARS + 200 {
            Err(full_error(n))
        } else {
            Ok(updated)
        }
    }
}

/// The outcome of removing every line that holds `sub`.
pub open spec fn remove_outcome(content: Seq<char>, sub: Seq<char>) -> Result<Seq<char>, Seq<char>> {
    if !contains(content, sub) {
        Err("not found: "@ + sub)
    } else {
        let kept = join(lines_without(lines(content), sub), seq!['\n']);
        if lines(kept).len() == lines(content).len() {
            Err("no lines removed"@)
        } else {
            Ok(kept + seq!['\n'])
        }
    }
}

/// The outcome of replacing every occurrence of `old` by `new`.
pub open spec fn replace_outcome(content: Seq<char>, old: Seq<char>, new: Seq<char>) -> Result<
    Seq<char>,
    Seq<char>,
> {
    if !contains(content, old) {
        Err("not found: "@ + old)
    } else {
        Ok(replaced(content, old, new))
    }
}

/// The prompt block holding the facts (empty when there are none).
pub open spec fn prompt_spec(facts: Seq<char>) -> Seq<char> {
    if facts.len() == 0 {
        Seq::empty()
    } else {
        "[热记忆 — 关于用户和环境的关键事实]\n"@ + facts + "\n[/热记忆]\n"@
    }
}

/// The hot memory file's text.
pub struct HotMemory {
    content: String,
}

impl View for HotMemory {
    type V = Seq<char>;

    closed spec fn view(&self) -> Seq<char> {
        self.content@
    }
}

fn keep_fact_lines(ls: &Vec<Vec<char>>) -> (r: Vec<Vec<char>>)
    ensures
        r@.map_values(|w: Vec<char>| w@) == keep_facts(ls@.map_values(|w: Vec<char>| w@)),
{
    let ghost all = ls@.map_values(|w: Vec<char>| w@);
    let mut out: Vec<Vec<char>> = Vec::new();
    let mut i: usize = 0;
    while i < ls.len()
        invariant
            i <= ls.len(),
            all == ls@.map_values(|w: Vec<char>| w@),
            out@.map_values(|w: Vec<char>| w@) == keep_facts(all.take(i as int)),
        decreases ls.len() - i,
    {
        let ghost before = out@.map_values(|w: Vec<char>| w@);
        assert(all.take(i + 1).drop_last() =~= all.take(i as int));
        assert(all.take(i + 1).last() == ls@[i as int]@);
        let l = &ls[i];
        let heading = l.len() > 0 && l[0] == '#';
        let t = trim_chars(l);
        if !heading && t.len() > 0 {
            out.push(l.clone());
            assert(out@.map_values(|w: Vec<char>| w@) =~= before.push(l@));
        }
        i = i + 1;
    }
    assert(all.take(ls.len() as int) =~= all);
    out
}

fn drop_blank_tail(ls: &mut Vec<Vec<char>>)
    ensures
        final(ls)@.map_values(|w: Vec<char>| w@) == drop_trailing_blank(
            old(ls)@.map_values(|w: Vec<char>| w@),
        ),
{
    loop
        invariant
            drop_trailing_blank(ls@.map_values(|w: Vec<char>| w@)) == drop_trailing_blank(
                old(ls)@.map_values(|w: Vec<char>| w@),
            ),
        ensures
            ls@.map_values(|w: Vec<char>| w@) == drop_trailing_blank(
                old(ls)@.map_values(|w: Vec<char>| w@),
            ),
        decreases ls.len(),
    {
        let n = ls.len();
        if n == 0 {
            return;
        }
        let t = trim_chars(&ls[n - 1]);
        if t.len() > 0 {
            return;
        }
        let ghost before = ls@.map_values(|w: Vec<char>| w@);
        ls.pop();
        assert(ls@.map_values(|w: Vec<char>| w@) =~= before.drop_last());
    }
}

fn find_last_mark(ls: &Vec<Vec<char>>) -> (r: Option<usize>)
    ensures
        match r {
            Some(p) => last_mark(ls@.map_values(|w: Vec<char>| w@)) == Some(p as int) && p
                < ls.len(),
            None => last_mark(ls@.map_values(|w: Vec<char>| w@)) is None,
        },
{
    let ghost all = ls@.map_values(|w: Vec<char>| w@);
    let mark = vec!['§'];
    assert(mark@ =~= seq!['§']);
    let mut k: usize = ls.len();
    assert(all.take(k as int) =~= all);
    while k > 0
        invariant
            k <= ls.len(),
            all == ls@.map_values(|w: Vec<char>| w@),
            mark@ == seq!['§'],
            last_mark(all) == last_mark(all.take(k as int)),
        decreases k,
    {
        assert(all.take(k as int).last() == ls@[k - 1]@);
        assert(all.take(k as int).drop_last() =~= all.take(k - 1));
        if contains_chars(&ls[k - 1], &mark) {
            return Some(k - 1);
        }
        k = k - 1;
    }
    None
}

fn facts_of(content: &str) -> (r: Vec<char>)
    ensures
        r@ == facts_text(content@),
{
    let cs = chars_of(content);
    let ls = split_lines(&cs);
    let kept = keep_fact_lines(&ls);
    join_lines(&kept)
}

impl HotMemory {
    /// A memory holding the given file text.
    pub fn from_content(content: String) -> (r: HotMemory)
        ensures
            r@ == content@,
    {
        HotMemory { content }
    }

    /// A memory holding the text of a freshly created file.
    pub fn initial() -> (r: HotMemory)
        ensures
            r@ == initial_content(),
    {
        HotMemory { content: owned("# TAIS Hot Memory\n§\n") }
    }

    /// The file text to store.
    pub fn content(&self) -> (r: &str)
        ensures
            r@ == self@,
    {
        self.content.as_str()
    }

    /// The facts, headings and blank lines left out, one per line, cut at
    /// `MAX_CHARS` characters (a cut is marked with `...`).
    pub fn read(&self) -> (r: String)
        ensures
            r@ == read_spec(self@),
            r@.len() <= MAX_CHARS,
    {
        let f = facts_of(self.content.as_str());
        if f.len() <= MAX_CHARS {
            return string_from_chars(f.as_slice());
        }
        let mut out = slice_chars(&f, 0, MAX_CHARS - 3);
        out.push('.');
        out.push('.');
        out.push('.');
        proof {
            reveal_strlit("...");
            assert(out@ =~= f@.take(MAX_CHARS - 3) + "..."@);
        }
        string_from_chars(out.as_slice())
    }

    /// Size of what `read` returns, in characters.
    pub fn size(&self) -> (r: usize)
        ensures
            r == read_spec(self@).len(),
            r <= MAX_CHARS,
    {
        let r = self.read();
        chars_of(r.as_str()).len()
    }

    /// The facts as a block for the system prompt; empty without facts.
    pub fn to_prompt(&self) -> (r: String)
        ensures
            r@ == prompt_spec(read_spec(self@)),
    {
        let facts = self.read();
        if byte_len(facts.as_str()) == 0 {
            return String::new();
        }
        let mut s = concat("[热记忆 — 关于用户和环境的关键事实]\n", facts.as_str());
        push_str(&mut s, "\n[/热记忆]\n");
        s
    }

    /// Adds a fact (trimmed) after the last `§` line. Refused when it is
    /// empty, already present, or when the facts would exceed 700
    /// characters.
    pub fn add(&mut self, fact: &str) -> (r: Result<(), String>)
        ensures
            match add_outcome(old(self)@, fact@) {
                Ok(c) => r is Ok && final(self)@ == c,
                Err(m) => r matches Err(e) && e@ == m && final(self)@ == old(self)@,
            },
    {
        let t = trim_chars(&chars_of(fact));
        if t.len() == 0 {
            return Err(owned("empty fact"));
        }
        let cs = chars_of(self.content.as_str());
        if contains_chars(&cs, &t) {
            return Err(owned("duplicate"));
        }
        let mut ls = split_lines(&cs);
        drop_blank_tail(&mut ls);
        let mut nl = t.clone();
        nl.push(' ');
        nl.push('§');
        proof {
            reveal_strlit(" §");
            assert(nl@ =~= t@ + " §"@);
        }
        let ghost ls0 = ls@.map_values(|w: Vec<char>| w@);
        match find_last_mark(&ls) {
            Some(p) => {
                ls.insert(p + 1, nl);
                assert(ls@.map_values(|w: Vec<char>| w@) =~= ls0.insert(p + 1, t@ + " §"@));
            },
            None => {
                ls.push(nl);
                assert(ls@.map_values(|w: Vec<char>| w@) =~= ls0.push(t@ + " §"@));
            },
        }
        let mut joined = join_lines(&ls);
        joined.push('\n');
        let updated = string_from_chars(joined.as_slice());
        assert(t@ == trim(fact@));
        assert(ls0 == drop_trailing_blank(lines(old(self)@)));
        assert(updated@ == added_content(old(self)@, t@));
        let f = string_from_chars(facts_of(updated.as_str()).as_slice());
        let n = chars_of(f.as_str()).len();
        if n > MAX_CHARS + 200 {
            let m = concat("memory full (", decimal(n as u64).as_str());
            return Err(concat(m.as_str(), " chars), remove old entries first"));
        }
        self.content = updated;
        Ok(())
    }

    /// Replaces every occurrence of `old_text` by `new_text`; refused when
    /// `old_text` does not occur.
    pub fn replace(&mut self, old_text: &str, new_text: &str) -> (r: Result<(), String>)
        ensures
            match replace_outcome(old(self)@, old_text@, new_text@) {
                Ok(c) => r is Ok && final(self)@ == c,
                Err(m) => r matches Err(e) && e@ == m && final(self)@ == old(self)@,
            },
    {
        if !str_contains(self.content.as_str(), old_text) {
            return Err(concat("not found: ", old_text));
        }
        let cs = chars_of(self.content.as_str());
        let updated = replace_all(&cs, &chars_of(old_text), &chars_of(new_text));
        self.content = string_from_chars(updated.as_slice());
        Ok(())
    }

    /// Removes every line holding `substring`; refused when it does not
    /// occur or no line goes.
    pub fn remove(&mut self, substring: &str) -> (r: Result<(), String>)
        ensures
            match remove_outcome(old(self)@, substring@) {
                Ok(c) => r is Ok && final(self)@ == c,
                Err(m) => r matches Err(e) && e@ == m && final(self)@ == old(self)@,
            },
    {
        if !str_contains(self.content.as_str(), substring) {
            return Err(concat("not found: ", substring));
        }
        let cs = chars_of(self.content.as_str());
        let sub = chars_of(substring);
        let ls = split_lines(&cs);
        let ghost all = ls@.map_values(|w: Vec<char>| w@);
        let mut kept: Vec<Vec<char>> = Vec::new();
        let mut i: usize = 0;
        while i < ls.len()
            invariant
                i <= ls.len(),
                all == ls@.map_values(|w: Vec<char>| w@),
                sub@ == substring@,
                kept@.map_values(|w: Vec<char>| w@) == lines_without(all.take(i as int), substring@),
            decreases ls.len() - i,
        {
            let ghost before = kept@.map_values(|w: Vec<char>| w@);
            assert(all.take(i + 1).drop_last() =~= all.take(i as int));
            assert(all.take(i + 1).last() == ls@[i as int]@);
            if !contains_chars(&ls[i], &sub) {
                kept.push(ls[i].clone());
                assert(kept@.map_values(|w: Vec<char>| w@) =~= before.push(ls@[i as int]@));
            }
            i = i + 1;
        }
        assert(all.take(ls.len() as int) =~= all);
        let mut joined = join_lines(&kept);
        let again = split_lines(&joined);
        proof {
            assert(again@.map_values(|w: Vec<char>| w@).len() == again.len());
            assert(all.len() == ls.len());
        }
        if again.len() == ls.len() {
            return Err(owned("no lines removed"));
        }
        joined.push('\n');
        self.content = string_from_chars(joined.as_slice());
        Ok(())
    }
}


/// A fact that was added is in the memory file afterwards (trimmed, on its
/// own `§` line).
pub proof fn law_added_fact_is_stored(content: Seq<char>, fact: Seq<char>)
    requires
        add_outcome(content, fact) is Ok,
    ensures
        add_outcome(content, fact) matches Ok(c) && contains(c, trim(fact)),
{
    let t = trim(fact);
    let ls = drop_trailing_blank(lines(content));
    let nl = t + " §"@;
    let ls2 = match last_mark(ls) {
        Some(p) => ls.insert(p + 1, nl),
        None => ls.push(nl),
    };
    let k = match last_mark(ls) {
        Some(p) => p + 1,
        None => ls.len() as int,
    };
    assert(0 <= k < ls2.len() && ls2[k] == nl) by {
        match last_mark(ls) {
            Some(p) => {
                lemma_last_mark_in_range(ls);
            },
            None => {},
        }
    }
    lemma_join_contains(ls2, seq!['\n'], k);
    let j = join(ls2, seq!['\n']);
    let i = choose|i: int| occurs_at(j, nl, i);
    lemma_occurs_concat(j, seq!['\n'], nl, i);
    assert(occurs_at(nl, t, 0)) by {
        assert(nl.subrange(0, t.len() as int) =~= t);
    }
    lemma_occurs_nested(j + seq!['\n'], nl, t, i, 0);
}

proof fn lemma_last_mark_in_range(ls: Seq<Seq<char>>)
    ensures
        last_mark(ls) matches Some(p) ==> 0 <= p < ls.len(),
    decreases ls.len(),
{
    if ls.len() > 0 {
        lemma_last_mark_in_range(ls.drop_last());
    }
}

} // verus!
