//! Gene gateway: applies the gene profile at decision points.
//!
//! - scholar: precise, marks confidence and sources
//! - mentor: warm, encouraging opening
//! - hacker: minimal, keeps the first and the last sentence
//!
//! A skill's output is a JSON object; the gateway decides which fields to
//! set on it (`wrap_fields`, `parameter_fields`) and whether a student's
//! query passes risk control (`check_safety`).

use vstd::prelude::*;
use crate::goal::GeneProfile;
use crate::text::{
    chars_of, concat, contains_any, contains_any_spec, owned, str_eq, str_views, string_from_chars, trim,
    trim_chars,
};

verus! {

/// The gene gateway.
pub struct GeneGateway;

/// Query phrases a strict profile refuses: cheating, ghost-writing, asking
/// for the direct answer or for the whole code.
pub open spec fn blocked_phrases() -> Seq<Seq<char>> {
    seq!["作弊"@, "代写"@, "直接答案"@, "全部代码"@]
}

/// Whether a query passes the risk control of `risk_level`: a strict
/// profile refuses any query holding a blocked phrase; every other level
/// lets everything through.
pub open spec fn passes_safety(query: Seq<char>, risk_level: Seq<char>) -> bool {
    risk_level == "strict"@ ==> !contains_any_spec(query, blocked_phrases())
}

/// A value the gateway sets on a JSON object.
#[derive(Debug, Clone, PartialEq, Eq)]
pub enum FieldValue {
    Text(String),
    Flag(bool),
    Count(u64),
}

/// The mathematical content of a `FieldValue`.
pub enum FieldValueView {
    Text(Seq<char>),
    Flag(bool),
    Count(u64),
}

impl View for FieldValue {
    type V = FieldValueView;

    open spec fn view(&self) -> FieldValueView {
        match self {
            FieldValue::Text(s) => FieldValueView::Text(s@),
            FieldValue::Flag(b) => FieldValueView::Flag(*b),
            FieldValue::Count(n) => FieldValueView::Count(*n),
        }
    }
}

/// The content a personality gives a skill's `content` text.
pub open spec fn styled_content(personality: Seq<char>, content: Seq<char>) -> Seq<char> {
    if personality == "scholar"@ {
        content + " [置信度: 高 · 来源: 已验证]"@
    } else if personality == "mentor"@ {
        "你已经很接近了！"@ + content
    } else if personality == "hacker"@ {
        compressed(content)
    } else {
        content
    }
}

/// The style tag a personality sets, if it is one of the three known ones.
pub open spec fn style_of(personality: Seq<char>) -> Option<Seq<char>> {
    if personality == "scholar"@ {
        Some("precise_academic"@)
    } else if personality == "mentor"@ {
        Some("encouraging"@)
    } else if personality == "hacker"@ {
        Some("minimal"@)
    } else {
        None
    }
}

/// The fields `wrap` sets on a skill's output object, in the order it sets
/// them: the gene's personality and thinking; for a known personality its
/// style and, when the output has a `content` field, the restyled content;
/// for a strict profile the passed safety check.
pub open spec fn wrap_fields_spec(
    personality: Seq<char>,
    thinking: Seq<char>,
    risk_level: Seq<char>,
    content: Option<Seq<char>>,
) -> Seq<(Seq<char>, Seq<char>)> {
    let base = seq![("_gene_personality"@, personality), ("_gene_thinking"@, thinking)];
    let styled = match style_of(personality) {
        Some(style) => {
            let with_style = base.push(("_style"@, style));
            match content {
                Some(c) => with_style.push(("content"@, styled_content(personality, c))),
                None => with_style,
            }
        },
        None => base,
    };
    if risk_level == "strict"@ {
        styled.push(("_safety_check"@, "passed"@))
    } else {
        styled
    }
}

/// The pieces of `s[i..]` between sentence ends (`。`, `！`, `？`) that hold
/// more than whitespace, given the piece being read.
pub open spec fn sentences_from(s: Seq<char>, i: int, cur: Seq<char>) -> Seq<Seq<char>>
    decreases s.len() - i,
{
    let kept = if trim(cur).len() > 0 { seq![cur] } else { Seq::<Seq<char>>::empty() };
    if i >= s.len() || i < 0 {
        kept
    } else if is_sentence_end(s[i]) {
        kept + sentences_from(s, i + 1, Seq::empty())
    } else {
        sentences_from(s, i + 1, cur.push(s[i]))
    }
}

/// A character that ends a sentence.
pub open spec fn is_sentence_end(c: char) -> bool {
    c == '。' || c == '！' || c == '？'
}

/// The sentences of `s` that hold more than whitespace.
pub open spec fn sentences(s: Seq<char>) -> Seq<Seq<char>> {
    sentences_from(s, 0, Seq::empty())
}

/// Hacker-style compression: with more than two sentences, only the first
/// and the last remain, each closed by `。`; otherwise the text stays.
pub open spec fn compressed(s: Seq<char>) -> Seq<char> {
    let ss = sentences(s);
    if ss.len() <= 2 {
        s
    } else {
        ss[0] + seq!['。'] + ss.last() + seq!['。']
    }
}

/// The sentences of `s` that hold more than whitespace.
fn split_sentences(s: &Vec<char>) -> (r: Vec<Vec<char>>)
    ensures
        r@.map_values(|w: Vec<char>| w@) == sentences(s@),
{
    let mut out: Vec<Vec<char>> = Vec::new();
    let mut cur: Vec<char> = Vec::new();
    let mut i: usize = 0;
    while i < s.len()
        invariant
            i <= s.len(),
            out@.map_values(|w: Vec<char>| w@) + sentences_from(s@, i as int, cur@) == sentences(s@),
        decreases s.len() - i,
    {
        let ghost before = out@.map_values(|w: Vec<char>| w@);
        let ghost old_cur = cur@;
        let c = s[i];
        if c == '。' || c == '！' || c == '？' {
            let t = trim_chars(&cur);
            if t.len() > 0 {
                let w = cur;
                cur = Vec::new();
                out.push(w);
                assert(out@.map_values(|w: Vec<char>| w@) =~= before.push(w@));
                assert(sentences_from(s@, i as int, old_cur) == seq![old_cur] + sentences_from(
                    s@,
                    i + 1,
                    Seq::empty(),
                ));
                assert(cur@ =~= Seq::<char>::empty());
                assert(before + sentences_from(s@, i as int, old_cur) =~= out@.map_values(
                    |w: Vec<char>| w@,
                ) + sentences_from(s@, i + 1, cur@));
            } else {
                cur = Vec::new();
                assert(sentences_from(s@, i as int, old_cur) =~= sentences_from(
                    s@,
                    i + 1,
                    Seq::empty(),
                ));
                assert(cur@ =~= Seq::<char>::empty());
            }
        } else {
            cur.push(c);
            assert(sentences_from(s@, i as int, old_cur) == sentences_from(
                s@,
                i + 1,
                old_cur.push(s@[i as int]),
            ));
            assert(out@.map_values(|w: Vec<char>| w@) == before);
        }
        i = i + 1;
    }
    let t = trim_chars(&cur);
    if t.len() > 0 {
        let ghost before = out@.map_values(|w: Vec<char>| w@);
        out.push(cur);
        assert(out@.map_values(|w: Vec<char>| w@) =~= before.push(cur@));
    } else {
        assert(sentences_from(s@, s.len() as int, cur@) =~= Seq::<Seq<char>>::empty());
    }
    assert(out@.map_values(|w: Vec<char>| w@) =~= sentences(s@));
    out
}

/// Compresses a text for the hacker personality: keeps the first sentence
/// (the core answer) and the last (the conclusion) when there are more
/// than two.
pub fn compress_hacker_style(text: &str) -> (r: String)
    ensures
        r@ == compressed(text@),
{
    let cs = chars_of(text);
    let ss = split_sentences(&cs);
    proof {
        assert(ss@.map_values(|w: Vec<char>| w@).len() == ss.len());
    }
    if ss.len() <= 2 {
        return owned(text);
    }
    let first = &ss[0];
    let last = &ss[ss.len() - 1];
    let mut out: Vec<char> = Vec::new();
    let mut k: usize = 0;
    while k < first.len()
        invariant
            k <= first.len(),
            out@ == first@.take(k as int),
        decreases first.len() - k,
    {
        out.push(first[k]);
        assert(first@.take(k + 1) =~= first@.take(k as int).push(first@[k as int]));
        k = k + 1;
    }
    out.push('。');
    let ghost mid = out@;
    let mut k: usize = 0;
    while k < last.len()
        invariant
            k <= last.len(),
            out@ == mid + last@.take(k as int),
        decreases last.len() - k,
    {
        out.push(last[k]);
        assert(last@.take(k + 1) =~= last@.take(k as int).push(last@[k as int]));
        k = k + 1;
    }
    out.push('。');
    proof {
        let ws = ss@.map_values(|w: Vec<char>| w@);
        assert(ws[0] == first@);
        assert(ws.last() == last@);
        assert(first@.take(first@.len() as int) =~= first@);
        assert(last@.take(last@.len() as int) =~= last@);
        assert(out@ =~= ws[0] + seq!['。'] + ws.last() + seq!['。']);
    }
    string_from_chars(out.as_slice())
}

impl GeneGateway {
    /// Whether a student's query passes the profile's risk control.
    pub fn check_safety(query: &str, gene: &GeneProfile) -> (r: bool)
        ensures
            r == passes_safety(query@, gene.risk_level@),
    {
        if str_eq(gene.risk_level.as_str(), "strict") {
            let blocked: [&str; 4] = ["作弊", "代写", "直接答案", "全部代码"];
            let hit = contains_any(query, &blocked);
            assert(str_views(blocked@) =~= blocked_phrases());
            !hit
        } else {
            true
        }
    }

    /// The fields to set on a skill's output object. `content` is the
    /// output's `content` text (empty when that field is not text), or
    /// `None` when it has no `content` field.
    pub fn wrap_fields(gene: &GeneProfile, content: Option<&str>) -> (r: Vec<(String, String)>)
        ensures
            r@.map_values(|f: (String, String)| (f.0@, f.1@)) == wrap_fields_spec(
                gene.personality@,
                gene.thinking@,
                gene.risk_level@,
                match content {
                    Some(c) => Some(c@),
                    None => None,
                },
            ),
    {
        let p = gene.personality.as_str();
        let mut out: Vec<(String, String)> = Vec::new();
        out.push((owned("_gene_personality"), gene.personality.clone()));
        out.push((owned("_gene_thinking"), gene.thinking.clone()));
        let style: Option<&str> = if str_eq(p, "scholar") {
            Some("precise_academic")
        } else if str_eq(p, "mentor") {
            Some("encouraging")
        } else if str_eq(p, "hacker") {
            Some("minimal")
        } else {
            None
        };
        match style {
            Some(st) => {
                out.push((owned("_style"), owned(st)));
                match content {
                    Some(c) => {
                        let styled = if str_eq(p, "scholar") {
                            concat(c, " [置信度: 高 · 来源: 已验证]")
                        } else if str_eq(p, "mentor") {
                            concat("你已经很接近了！", c)
                        } else {
                            compress_hacker_style(c)
                        };
                        out.push((owned("content"), styled));
                    },
                    None => {},
                }
            },
            None => {},
        }
        if str_eq(gene.risk_level.as_str(), "strict") {
            out.push((owned("_safety_check"), owned("passed")));
        }
        proof {
            let c = match content {
                Some(c) => Some(c@),
                None => None,
            };
            assert(out@.map_values(|f: (String, String)| (f.0@, f.1@)) =~= wrap_fields_spec(
                gene.personality@,
                gene.thinking@,
                gene.risk_level@,
                c,
            ));
        }
        out
    }

    /// The behaviour parameters a personality sets on a skill's parameter
    /// object.
    pub fn parameter_fields(gene: &GeneProfile) -> (r: Vec<(String, FieldValue)>)
        ensures
            r@.map_values(|f: (String, FieldValue)| (f.0@, f.1@)) == parameter_fields_spec(
                gene.personality@,
            ),
    {
        let p = gene.personality.as_str();
        let mut out: Vec<(String, FieldValue)> = Vec::new();
        if str_eq(p, "scholar") {
            out.push((owned("precision"), FieldValue::Text(owned("high"))));
            out.push((owned("citation_required"), FieldValue::Flag(true)));
        } else if str_eq(p, "mentor") {
            out.push((owned("tone"), FieldValue::Text(owned("warm"))));
            out.push((owned("max_frustration_rounds"), FieldValue::Count(5)));
        } else if str_eq(p, "hacker") {
            out.push((owned("brevity"), FieldValue::Text(owned("max"))));
            out.push((owned("comments"), FieldValue::Flag(false)));
        }
        assert(out@.map_values(|f: (String, FieldValue)| (f.0@, f.1@)) =~= parameter_fields_spec(p@));
        out
    }
}

/// The parameters a personality sets: scholar asks for high precision and
/// citations, mentor for a warm tone and at most five frustrated rounds,
/// hacker for maximal brevity and no comments.
pub open spec fn parameter_fields_spec(personality: Seq<char>) -> Seq<(Seq<char>, FieldValueView)> {
    if personality == "scholar"@ {
        seq![("precision"@, FieldValueView::Text("high"@)), ("citation_required"@, FieldValueView::Flag(true))]
    } else if personality == "mentor"@ {
        seq![("tone"@, FieldValueView::Text("warm"@)), ("max_frustration_rounds"@, FieldValueView::Count(5))]
    } else if personality == "hacker"@ {
        seq![("brevity"@, FieldValueView::Text("max"@)), ("comments"@, FieldValueView::Flag(false))]
    } else {
        Seq::empty()
    }
}

} // verus!
