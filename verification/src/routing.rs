//! Message routing rules of the chat server: question detection, concept
//! and strategy extraction, mode switches, the command language of command
//! mode and the quick commands of general mode.
//!
//! Each rule that reads a lowercased message has a form that takes the
//! lowercased text as an argument, so that its result is exact on given
//! text; the form that lowercases calls std's `to_lowercase`.

use vstd::prelude::*;
use crate::text::{
    chars_of, chars_within, contains, contains_any, contains_any_spec, find_from, find_from_spec, join,
    join_chars, lowercase, owned, prefix_within, slice_chars, split_words, starts_with, str_contains, str_eq,
    str_starts_with, str_views, string_from_chars, to_lowercase, trim, trim_chars, utf8_len, words,
};

verus! {

// ── Prefix stripping ─────────────────────────────────────────────────

/// `s` with every leading repetition of `p` removed, as
/// `str::trim_start_matches` does with a string pattern.
pub open spec fn strip_all(s: Seq<char>, p: Seq<char>) -> Seq<char>
    decreases s.len(),
{
    if p.len() > 0 && starts_with(s, p) {
        strip_all(s.skip(p.len() as int), p)
    } else {
        s
    }
}

/// Removes every leading repetition of `p` from `s`.
pub fn strip_prefixes(s: &Vec<char>, p: &Vec<char>) -> (r: Vec<char>)
    ensures
        r@ == strip_all(s@, p@),
{
    let mut i: usize = 0;
    assert(s@.skip(0) =~= s@);
    while p.len() > 0 && i <= s.len() && crate::text::matches_at(s, p, i)
        invariant
            i <= s.len(),
            strip_all(s@, p@) == strip_all(s@.skip(i as int), p@),
        decreases s.len() - i,
    {
        proof {
            assert(s@.skip(i as int).take(p@.len() as int) =~= s@.subrange(i as int, i + p@.len()));
            assert(starts_with(s@.skip(i as int), p@));
            assert(s@.skip(i as int).skip(p@.len() as int) =~= s@.skip(i + p@.len()));
        }
        i = i + p.len();
    }
    proof {
        if p@.len() > 0 {
            assert(s@.skip(i as int).take(p@.len() as int) =~= s@.subrange(i as int, i + p@.len())
                || s@.skip(i as int).len() < p@.len());
            if i + p@.len() <= s@.len() {
                assert(s@.skip(i as int).take(p@.len() as int) =~= s@.subrange(i as int, i + p@.len()));
            }
        }
    }
    slice_chars(s, i, s.len())
}

// ── Questions and concepts ───────────────────────────────────────────

/// Whether a message asks something or asks to be taught.
#[derive(Debug, Clone, Copy, PartialEq, Eq, Structural)]
pub enum Intent {
    Command,
    Question,
}

/// Words that mark a question.
pub open spec fn question_words() -> Seq<Seq<char>> {
    seq![
        "什么是"@, "怎么"@, "为什么"@, "如何"@, "解释"@, "教我"@, "学习"@, "不懂"@, "不明白"@,
        "帮我理解"@, "请问"@, "我想知道"@, "说明"@, "讲一下"@, "介绍一下"@,
    ]
}

/// A lowercased message is a question: it holds a question mark, starts
/// with what/how/why, or holds a question word.
pub open spec fn is_question(lower: Seq<char>) -> bool {
    contains(lower, "?"@) || contains(lower, "？"@) || starts_with(lower, "what"@) || starts_with(
        lower,
        "how"@,
    ) || starts_with(lower, "why"@) || contains_any_spec(lower, question_words())
}

/// A message is a question when it holds a question mark (half or full
/// width), starts with "what", "how" or "why", or holds any of the words
/// 什么是, 怎么, 为什么, 如何, 解释, 教我, 学习, 不懂, 不明白, 帮我理解, 请问,
/// 我想知道, 说明, 讲一下, 介绍一下.
pub proof fn law_question_marks(lower: Seq<char>, w: Seq<char>)
    requires
        seq![
            "?"@, "？"@, "什么是"@, "怎么"@, "为什么"@, "如何"@, "解释"@, "教我"@, "学习"@, "不懂"@, "不明白"@,
            "帮我理解"@, "请问"@, "我想知道"@, "说明"@, "讲一下"@, "介绍一下"@,
        ].contains(w),
        contains(lower, w),
    ensures
        is_question(lower),
{
    let ws = seq![
        "?"@, "？"@, "什么是"@, "怎么"@, "为什么"@, "如何"@, "解释"@, "教我"@, "学习"@, "不懂"@, "不明白"@,
        "帮我理解"@, "请问"@, "我想知道"@, "说明"@, "讲一下"@, "介绍一下"@,
    ];
    let j = choose|j: int| 0 <= j < ws.len() && ws[j] == w;
    if j >= 2 {
        let qs = question_words();
        assert(qs[j - 2] == w);
        assert(contains(lower, qs[j - 2]));
    }
}

/// A message that starts with "what", "how" or "why" is a question.
pub proof fn law_question_openers(lower: Seq<char>)
    requires
        starts_with(lower, "what"@) || starts_with(lower, "how"@) || starts_with(lower, "why"@),
    ensures
        is_question(lower),
{
}

/// A message with question marks and commas (full and half width) turned
/// into spaces.
pub open spec fn cleaned(s: Seq<char>) -> Seq<char> {
    s.map_values(|c: char| if c == '？' || c == '?' || c == '，' || c == ',' { ' ' } else { c })
}

/// Phrases after which a concept is named, tried in this order.
pub open spec fn concept_prefixes() -> Seq<Seq<char>> {
    seq!["什么是"@, "关于"@, "解释一下"@, "怎么理解"@, "教我"@, "介绍一下"@]
}

/// The first three words of `s`, joined by a space, if `s` has a word.
pub open spec fn first_words(s: Seq<char>) -> Option<Seq<char>> {
    let ws = words(s);
    if ws.len() == 0 {
        None
    } else {
        Some(join(ws.take(if ws.len() < 3 { ws.len() as int } else { 3 }), " "@))
    }
}

/// The concept named after the `k`-th prefix or a later one.
pub open spec fn concept_after_prefix(c: Seq<char>, k: int) -> Option<Seq<char>>
    decreases concept_prefixes().len() - k,
{
    if k >= concept_prefixes().len() || k < 0 {
        None
    } else {
        let p = concept_prefixes()[k];
        match find_from_spec(c, p, 0) {
            Some(pos) => match first_words(trim(c.skip(pos + p.len()))) {
                Some(w) => Some(w),
                None => concept_after_prefix(c, k + 1),
            },
            None => concept_after_prefix(c, k + 1),
        }
    }
}

/// The concept a chat message names: the text between `「` and `」`, else
/// the first three words after the first concept phrase that is followed
/// by a word.
pub open spec fn message_concept(text: Seq<char>) -> Option<Seq<char>> {
    let c = cleaned(text);
    match find_from_spec(c, seq!['「'], 0) {
        Some(i) => match find_from_spec(c, seq!['」'], i) {
            Some(j) => Some(c.subrange(i + 1, j)),
            None => concept_after_prefix(c, 0),
        },
        None => concept_after_prefix(c, 0),
    }
}

fn clean_chars(s: &Vec<char>) -> (r: Vec<char>)
    ensures
        r@ == cleaned(s@),
{
    let mut out: Vec<char> = Vec::new();
    let mut i: usize = 0;
    while i < s.len()
        invariant
            i <= s.len(),
            out@ == cleaned(s@.take(i as int)),
        decreases s.len() - i,
    {
        let c = s[i];
        let d = if c == '？' || c == '?' || c == '，' || c == ',' {
            ' '
        } else {
            c
        };
        out.push(d);
        assert(cleaned(s@.take(i + 1)) =~= cleaned(s@.take(i as int)).push(d));
        i = i + 1;
    }
    assert(s@.take(s.len() as int) =~= s@);
    out
}

fn first_three_words(s: &Vec<char>) -> (r: Option<Vec<char>>)
    ensures
        match r {
            Some(w) => first_words(s@) == Some(w@),
            None => first_words(s@) is None,
        },
{
    let ws = split_words(s);
    proof {
        assert(ws@.map_values(|w: Vec<char>| w@).len() == ws.len());
    }
    if ws.len() == 0 {
        return None;
    }
    let n: usize = if ws.len() < 3 {
        ws.len()
    } else {
        3
    };
    let sep = vec![' '];
    proof {
        reveal_strlit(" ");
        assert(sep@ =~= " "@);
    }
    Some(join_chars(&ws, n, &sep))
}

/// The concept a chat message names, if any.
pub fn extract_concept(text: &str) -> (r: Option<String>)
    ensures
        match r {
            Some(c) => message_concept(text@) == Some(c@),
            None => message_concept(text@) is None,
        },
{
    let c = clean_chars(&chars_of(text));
    let open = vec!['「'];
    let close = vec!['」'];
    assert(open@ =~= seq!['「']);
    assert(close@ =~= seq!['」']);
    match find_from(&c, &open, 0) {
        Some(i) => match find_from(&c, &close, i) {
            Some(j) => {
                assert(i < j) by {
                    assert(c@[i as int] == '「');
                    assert(c@.subrange(j as int, j + 1)[0] == '」');
                };
                let inner = slice_chars(&c, i + 1, j);
                return Some(string_from_chars(inner.as_slice()));
            },
            None => {},
        },
        None => {},
    }
    let prefixes: [&str; 6] = ["什么是", "关于", "解释一下", "怎么理解", "教我", "介绍一下"];
    assert(str_views(prefixes@) =~= concept_prefixes());
    let mut k: usize = 0;
    while k < 6
        invariant
            k <= 6,
            c@ == cleaned(text@),
            str_views(prefixes@) == concept_prefixes(),
            prefixes@.len() == 6,
            concept_after_prefix(c@, 0) == concept_after_prefix(c@, k as int),
            message_concept(text@) == concept_after_prefix(c@, 0),
        decreases 6 - k,
    {
        let p = chars_of(prefixes[k]);
        assert(p@ == concept_prefixes()[k as int]);
        match find_from(&c, &p, 0) {
            Some(pos) => {
                let after = slice_chars(&c, pos + p.len(), c.len());
                assert(after@ =~= c@.skip(pos + p@.len()));
                let t = trim_chars(&after);
                match first_three_words(&t) {
                    Some(w) => {
                        assert(concept_after_prefix(c@, k as int) == Some(w@));
                        return Some(string_from_chars(w.as_slice()));
                    },
                    None => {},
                }
            },
            None => {},
        }
        k = k + 1;
    }
    None
}

/// Classifies a message, given its lowercased form, and names the concept
/// of a question.
pub fn intent_of(text: &str, lower: &str) -> (r: (Intent, Option<String>))
    ensures
        is_question(lower@) ==> r.0 == Intent::Question && match r.1 {
            Some(c) => message_concept(text@) == Some(c@),
            None => message_concept(text@) is None,
        },
        !is_question(lower@) ==> r.0 == Intent::Command && r.1 is None,
        contains_any_spec(
            lower@,
            seq![
                "?"@, "？"@, "什么是"@, "怎么"@, "为什么"@, "如何"@, "解释"@, "教我"@, "学习"@, "不懂"@,
                "不明白"@, "帮我理解"@, "请问"@, "我想知道"@, "说明"@, "讲一下"@, "介绍一下"@,
            ],
        ) ==> r.0 == Intent::Question,
{
    proof {
        let ws = seq![
            "?"@, "？"@, "什么是"@, "怎么"@, "为什么"@, "如何"@, "解释"@, "教我"@, "学习"@, "不懂"@, "不明白"@,
            "帮我理解"@, "请问"@, "我想知道"@, "说明"@, "讲一下"@, "介绍一下"@,
        ];
        if contains_any_spec(lower@, ws) {
            let i = choose|i: int| 0 <= i < ws.len() && contains(lower@, #[trigger] ws[i]);
            law_question_marks(lower@, ws[i]);
        }
    }
    let kws: [&str; 15] = [
        "什么是", "怎么", "为什么", "如何", "解释", "教我", "学习", "不懂", "不明白", "帮我理解", "请问",
        "我想知道", "说明", "讲一下", "介绍一下",
    ];
    assert(str_views(kws@) =~= question_words());
    if str_contains(lower, "?") || str_contains(lower, "？") || str_starts_with(lower, "what")
        || str_starts_with(lower, "how") || str_starts_with(lower, "why") || contains_any(
        lower,
        &kws,
    ) {
        return (Intent::Question, extract_concept(text));
    }
    (Intent::Command, None)
}

/// Classifies a message as a question or not, and names the concept of a
/// question.
pub fn detect_intent(text: &str) -> (r: (Intent, Option<String>))
    ensures
        is_question(lowercase(text@)) ==> r.0 == Intent::Question && match r.1 {
            Some(c) => message_concept(text@) == Some(c@),
            None => message_concept(text@) is None,
        },
        !is_question(lowercase(text@)) ==> r.0 == Intent::Command && r.1 is None,
        contains_any_spec(
            lowercase(text@),
            seq![
                "?"@, "？"@, "什么是"@, "怎么"@, "为什么"@, "如何"@, "解释"@, "教我"@, "学习"@, "不懂"@,
                "不明白"@, "帮我理解"@, "请问"@, "我想知道"@, "说明"@, "讲一下"@, "介绍一下"@,
            ],
        ) ==> r.0 == Intent::Question,
{
    let lower = to_lowercase(text);
    intent_of(text, lower.as_str())
}

/// Teaching strategy for a lowercased message: counterexamples for
/// "is it right?", analogies for examples, scaffolding for procedures,
/// clarification otherwise.
pub open spec fn strategy_spec(lower: Seq<char>) -> Seq<char> {
    if contains(lower, "对吗"@) || contains(lower, "对不对"@) || contains(lower, "是不是"@) {
        "counterexample"@
    } else if contains(lower, "例子"@) || contains(lower, "比如"@) || contains(lower, "类比"@) {
        "analogy"@
    } else if contains(lower, "怎么做"@) || contains(lower, "步骤"@) || contains(lower, "过程"@) {
        "scaffold"@
    } else {
        "clarification"@
    }
}

/// The teaching strategy for a lowercased message.
pub fn strategy_for(lower: &str) -> (r: &'static str)
    ensures
        r@ == strategy_spec(lower@),
{
    if str_contains(lower, "对吗") || str_contains(lower, "对不对") || str_contains(lower, "是不是") {
        "counterexample"
    } else if str_contains(lower, "例子") || str_contains(lower, "比如") || str_contains(lower, "类比") {
        "analogy"
    } else if str_contains(lower, "怎么做") || str_contains(lower, "步骤") || str_contains(lower, "过程") {
        "scaffold"
    } else {
        "clarification"
    }
}

/// The teaching strategy for a message.
pub fn pick_strategy(text: &str) -> (r: &'static str)
    ensures
        r@ == strategy_spec(lowercase(text@)),
{
    let lower = to_lowercase(text);
    strategy_for(lower.as_str())
}

/// The longest prefix of `s` within `max` bytes that ends at a character
/// boundary; `s` itself when it fits.
pub open spec fn truncated(s: Seq<char>, max: int) -> Seq<char> {
    if utf8_len(s) <= max {
        s
    } else {
        s.take(chars_within(s, max) as int)
    }
}

/// Cuts `s` to at most `max_bytes` bytes without splitting a character.
pub fn safe_truncate(s: &str, max_bytes: usize) -> (r: String)
    ensures
        r@ == truncated(s@, max_bytes as int),
        utf8_len(r@) <= max_bytes || r@ == s@,
{
    let cs = chars_of(s);
    let k = prefix_within(&cs, max_bytes);
    proof {
        crate::text::lemma_utf8_len_prefix(cs@, k as int);
        if k < cs.len() {
            crate::text::lemma_utf8_len_prefix(cs@, k + 1);
        } else {
            assert(cs@.take(k as int) =~= cs@);
        }
    }
    if k == cs.len() {
        return owned(s);
    }
    let p = slice_chars(&cs, 0, k);
    string_from_chars(p.as_slice())
}

// ── Skill names ──────────────────────────────────────────────────────

/// The skill a lowercased query asks for by keyword.
pub open spec fn keyword_skill(lower: Seq<char>) -> Option<Seq<char>> {
    if contains(lower, "天气"@) || contains(lower, "weather"@) {
        Some("weather_query"@)
    } else if contains(lower, "新闻"@) || contains(lower, "news"@) {
        Some("news_fetch"@)
    } else if contains(lower, "搜索"@) || contains(lower, "search"@) {
        Some("web_search"@)
    } else if contains(lower, "计算"@) || contains(lower, "calc"@) {
        Some("calculator"@)
    } else if contains(lower, "翻译"@) || contains(lower, "translate"@) {
        Some("translator"@)
    } else if contains(lower, "爬虫"@) || contains(lower, "scrape"@) || contains(lower, "抓取"@) {
        Some("web_scraper"@)
    } else if contains(lower, "文件"@) || contains(lower, "file"@) {
        Some("file_ops"@)
    } else {
        None
    }
}

/// The first two words of a query joined by `_`.
pub open spec fn two_words(text: Seq<char>) -> Seq<char> {
    let ws = words(text);
    join(ws.take(if ws.len() < 2 { ws.len() as int } else { 2 }), "_"@)
}

/// A generic skill name: the lowercased words if longer than three bytes.
pub open spec fn generic_skill(name: Seq<char>) -> Seq<char> {
    if utf8_len(name) > 3 {
        name
    } else {
        "agent_skill"@
    }
}

/// The skill named by keyword in a lowercased query.
pub fn skill_for_keywords(lower: &str) -> (r: Option<&'static str>)
    ensures
        match r {
            Some(k) => keyword_skill(lower@) == Some(k@),
            None => keyword_skill(lower@) is None,
        },
{
    if str_contains(lower, "天气") || str_contains(lower, "weather") {
        Some("weather_query")
    } else if str_contains(lower, "新闻") || str_contains(lower, "news") {
        Some("news_fetch")
    } else if str_contains(lower, "搜索") || str_contains(lower, "search") {
        Some("web_search")
    } else if str_contains(lower, "计算") || str_contains(lower, "calc") {
        Some("calculator")
    } else if str_contains(lower, "翻译") || str_contains(lower, "translate") {
        Some("translator")
    } else if str_contains(lower, "爬虫") || str_contains(lower, "scrape") || str_contains(
        lower,
        "抓取",
    ) {
        Some("web_scraper")
    } else if str_contains(lower, "文件") || str_contains(lower, "file") {
        Some("file_ops")
    } else {
        None
    }
}

/// The first two words of a query joined by `_`.
pub fn first_two_words(text: &str) -> (r: String)
    ensures
        r@ == two_words(text@),
{
    let ws = split_words(&chars_of(text));
    proof {
        assert(ws@.map_values(|w: Vec<char>| w@).len() == ws.len());
    }
    let n: usize = if ws.len() < 2 {
        ws.len()
    } else {
        2
    };
    let sep = vec!['_'];
    proof {
        reveal_strlit("_");
        assert(sep@ =~= "_"@);
    }
    string_from_chars(join_chars(&ws, n, &sep).as_slice())
}

/// A generic skill name from lowercased words.
pub fn generic_skill_name(name: &str) -> (r: String)
    ensures
        r@ == generic_skill(name@),
{
    if crate::text::byte_len(name) > 3 {
        owned(name)
    } else {
        owned("agent_skill")
    }
}

/// The skill name a query suggests (e.g. a weather question gives
/// `weather_query`); otherwise its first two words, lowercased.
pub fn extract_skill_name(text: &str) -> (r: String)
    ensures
        r@ == match keyword_skill(lowercase(text@)) {
            Some(k) => k,
            None => generic_skill(lowercase(two_words(text@))),
        },
{
    let lower = to_lowercase(text);
    match skill_for_keywords(lower.as_str()) {
        Some(k) => owned(k),
        None => {
            let joined = first_two_words(text);
            let name = to_lowercase(joined.as_str());
            generic_skill_name(name.as_str())
        },
    }
}

/// Skill names that are crystallized automatically after a successful run.
pub open spec fn known_skills() -> Seq<Seq<char>> {
    seq![
        "weather_query"@, "news_fetch"@, "web_search"@, "calculator"@, "translator"@,
        "web_scraper"@, "file_ops"@,
    ]
}

/// Whether an agent run is worth crystallizing: it ran code and showed
/// output, its answer is not an error, and the skill is a known kind.
pub open spec fn worth_crystallizing(progress: Seq<Seq<char>>, answer: Seq<char>, skill: Seq<char>) -> bool {
    let had_code = exists|i: int|
        0 <= i < progress.len() && (contains(#[trigger] progress[i], "Agent 执行代码"@) || contains(
            progress[i],
            "操控浏览器"@,
        ));
    let had_output = exists|i: int|
        0 <= i < progress.len() && (contains(#[trigger] progress[i], "执行结果"@) || contains(
            progress[i],
            "浏览器输出"@,
        ));
    let is_error = utf8_len(answer) < 10 || contains(answer, "失败"@) || contains(answer, "Error"@);
    had_code && had_output && !is_error && known_skills().contains(skill)
}

/// Whether some line of `progress` holds `a` or `b`.
fn any_holds(progress: &Vec<String>, a: &str, b: &str) -> (r: bool)
    ensures
        r == exists|i: int|
            0 <= i < progress@.len() && (contains(#[trigger] progress@[i]@, a@) || contains(
                progress@[i]@,
                b@,
            )),
{
    let mut i: usize = 0;
    while i < progress.len()
        invariant
            i <= progress.len(),
            forall|j: int|
                0 <= j < i ==> !(contains(#[trigger] progress@[j]@, a@) || contains(progress@[j]@, b@)),
        decreases progress.len() - i,
    {
        if str_contains(progress[i].as_str(), a) || str_contains(progress[i].as_str(), b) {
            return true;
        }
        i = i + 1;
    }
    false
}

/// Whether an agent run is worth crystallizing as `skill`.
pub fn should_crystallize(progress: &Vec<String>, answer: &str, skill: &str) -> (r: bool)
    ensures
        r == worth_crystallizing(progress@.map_values(|s: String| s@), answer@, skill@),
{
    let ghost ps = progress@.map_values(|s: String| s@);
    let had_code = any_holds(progress, "Agent 执行代码", "操控浏览器");
    let had_output = any_holds(progress, "执行结果", "浏览器输出");
    proof {
        assert forall|i: int| 0 <= i < ps.len() implies #[trigger] ps[i] == progress@[i]@ by {}
        if had_code {
            let i = choose|i: int|
                0 <= i < progress@.len() && (contains(#[trigger] progress@[i]@, "Agent 执行代码"@)
                    || contains(progress@[i]@, "操控浏览器"@));
            assert(ps[i] == progress@[i]@);
            assert(0 <= i < ps.len() && (contains(ps[i], "Agent 执行代码"@) || contains(ps[i], "操控浏览器"@)));
        }
        if had_output {
            let i = choose|i: int|
                0 <= i < progress@.len() && (contains(#[trigger] progress@[i]@, "执行结果"@)
                    || contains(progress@[i]@, "浏览器输出"@));
            assert(ps[i] == progress@[i]@);
            assert(0 <= i < ps.len() && (contains(ps[i], "执行结果"@) || contains(ps[i], "浏览器输出"@)));
        }
    }
    let is_error = crate::text::byte_len(answer) < 10 || str_contains(answer, "失败")
        || str_contains(answer, "Error");
    if !had_code || !had_output || is_error {
        return false;
    }
    is_known_skill(skill)
}

/// Whether `skill` is a kind that is crystallized automatically.
pub fn is_known_skill(skill: &str) -> (r: bool)
    ensures
        r == known_skills().contains(skill@),
{
    let known: [&str; 7] = [
        "weather_query", "news_fetch", "web_search", "calculator", "translator", "web_scraper",
        "file_ops",
    ];
    assert(str_views(known@) =~= known_skills());
    let mut k: usize = 0;
    while k < 7
        invariant
            k <= 7,
            known@.len() == 7,
            str_views(known@) == known_skills(),
            forall|j: int| 0 <= j < k ==> known_skills()[j] != skill@,
        decreases 7 - k,
    {
        assert(str_views(known@)[k as int] == known@[k as int]@);
        if str_eq(known[k], skill) {
            assert(known_skills()[k as int] == skill@);
            assert(known_skills().contains(skill@));
            return true;
        }
        k = k + 1;
    }
    assert(!known_skills().contains(skill@));
    false
}

// ── Chat modes ───────────────────────────────────────────────────────

/// The persistent mode of a chat session.
#[derive(Debug, Clone, Copy, PartialEq, Eq, Structural)]
pub enum SessionMode {
    Learning,
    Command,
    General,
}

/// Phrases that switch to learning mode.
pub open spec fn learning_words() -> Seq<Seq<char>> {
    seq!["切换到学习"@, "学习模式"@, "教学"@, "恢复教学"@, "进入教学"@]
}

/// Phrases that switch to command mode.
pub open spec fn command_words() -> Seq<Seq<char>> {
    seq!["切换到命令"@, "命令模式"@, "管理模式"@, "admin"@, "指令模式"@, "不是学习"@, "不是教学"@]
}

/// Phrases that switch to general mode.
pub open spec fn general_words() -> Seq<Seq<char>> {
    seq!["通用模式"@, "切换到通用"@, "聊天模式"@, "一般模式"@, "对话模式"@, "通用"@, "general"@]
}

/// The mode a lowercased message switches to, if it asks for one;
/// learning is checked first, then command, then general.
pub open spec fn mode_switch_spec(lower: Seq<char>) -> Option<SessionMode> {
    if contains_any_spec(lower, learning_words()) {
        Some(SessionMode::Learning)
    } else if contains_any_spec(lower, command_words()) {
        Some(SessionMode::Command)
    } else if contains_any_spec(lower, general_words()) {
        Some(SessionMode::General)
    } else {
        None
    }
}

/// The mode a lowercased message switches to, if any.
pub fn mode_switch(lower: &str) -> (r: Option<SessionMode>)
    ensures
        r == mode_switch_spec(lower@),
{
    let l: [&str; 5] = ["切换到学习", "学习模式", "教学", "恢复教学", "进入教学"];
    let c: [&str; 7] = ["切换到命令", "命令模式", "管理模式", "admin", "指令模式", "不是学习", "不是教学"];
    let g: [&str; 7] = ["通用模式", "切换到通用", "聊天模式", "一般模式", "对话模式", "通用", "general"];
    assert(str_views(l@) =~= learning_words());
    assert(str_views(c@) =~= command_words());
    assert(str_views(g@) =~= general_words());
    if contains_any(lower, &l) {
        Some(SessionMode::Learning)
    } else if contains_any(lower, &c) {
        Some(SessionMode::Command)
    } else if contains_any(lower, &g) {
        Some(SessionMode::General)
    } else {
        None
    }
}

/// Quick commands that also work in general mode.
#[derive(Debug, Clone, Copy, PartialEq, Eq, Structural)]
pub enum QuickCommand {
    Help,
    Status,
    Habits,
    Gene,
    Time,
}

/// The quick command a lowercased message is, if any.
pub open spec fn quick_spec(lower: Seq<char>) -> Option<QuickCommand> {
    if lower == "help"@ || lower == "?"@ || lower == "？"@ {
        Some(QuickCommand::Help)
    } else if lower == "status"@ {
        Some(QuickCommand::Status)
    } else if lower == "habits"@ {
        Some(QuickCommand::Habits)
    } else if lower == "gene"@ {
        Some(QuickCommand::Gene)
    } else if lower == "time"@ || lower == "时间"@ || contains(lower, "几点"@) || contains(lower, "时间"@) {
        Some(QuickCommand::Time)
    } else {
        None
    }
}

/// The quick command a lowercased message is, if any.
pub fn quick_command(lower: &str) -> (r: Option<QuickCommand>)
    ensures
        r == quick_spec(lower@),
{
    if str_eq(lower, "help") || str_eq(lower, "?") || str_eq(lower, "？") {
        Some(QuickCommand::Help)
    } else if str_eq(lower, "status") {
        Some(QuickCommand::Status)
    } else if str_eq(lower, "habits") {
        Some(QuickCommand::Habits)
    } else if str_eq(lower, "gene") {
        Some(QuickCommand::Gene)
    } else if str_eq(lower, "time") || str_eq(lower, "时间") || str_contains(lower, "几点")
        || str_contains(lower, "时间") {
        Some(QuickCommand::Time)
    } else {
        None
    }
}

/// Whether a general-mode message goes to the tool-using agent: a model
/// is available, the message is longer than two bytes, and it is neither
/// a quick command prefix nor a bare greeting or question mark.
pub open spec fn agent_spec(llm_available: bool, text: Seq<char>, lower: Seq<char>) -> bool {
    llm_available && utf8_len(text) > 2 && !starts_with(lower, "help"@) && !starts_with(
        lower,
        "status"@,
    ) && !starts_with(lower, "habits"@) && !starts_with(lower, "gene"@) && !starts_with(
        lower,
        "time"@,
    ) && lower != "?"@ && lower != "？"@ && lower != "你好"@ && lower != "hi"@
}

/// Whether a general-mode message goes to the tool-using agent.
pub fn wants_agent(llm_available: bool, text: &str, lower: &str) -> (r: bool)
    ensures
        r == agent_spec(llm_available, text@, lower@),
{
    llm_available && crate::text::byte_len(text) > 2 && !str_starts_with(lower, "help")
        && !str_starts_with(lower, "status") && !str_starts_with(lower, "habits")
        && !str_starts_with(lower, "gene") && !str_starts_with(lower, "time") && !str_eq(lower, "?")
        && !str_eq(lower, "？") && !str_eq(lower, "你好") && !str_eq(lower, "hi")
}

/// A WeChat message that is a six-digit binding code.
pub open spec fn is_bind_code_spec(content: Seq<char>) -> bool {
    content.len() == 6 && forall|i: int| 0 <= i < 6 ==> '0' <= #[trigger] content[i] <= '9'
}

/// Whether a WeChat message is a six-digit binding code.
pub fn is_bind_code(content: &str) -> (r: bool)
    ensures
        r == is_bind_code_spec(content@),
{
    let cs = chars_of(content);
    if cs.len() != 6 {
        return false;
    }
    let mut i: usize = 0;
    while i < 6
        invariant
            i <= 6,
            cs@ == content@,
            cs@.len() == 6,
            forall|j: int| 0 <= j < i ==> '0' <= #[trigger] cs@[j] <= '9',
        decreases 6 - i,
    {
        if cs[i] < '0' || cs[i] > '9' {
            return false;
        }
        i = i + 1;
    }
    true
}

} // verus!
