//! Shared memory: the knowledge every student's tutor draws on — concept
//! notes, frequently asked questions, cross-student statistics and proven
//! teaching strategies — and the context prompt built from them.
//!
//! Fractions between 0 and 1 (difficulty, effectiveness, success rate,
//! mastery) are kept in thousandths; times are microseconds since the Unix
//! epoch.

use vstd::prelude::*;
use crate::order::{rank_desc, rank_order};
use crate::platform::now_micros;
use crate::text::{
    clone_opt, clone_strings, concat, contains, join, join_strings, lowercase, owned, push_str, str_contains, str_eq,
    to_lowercase, views,
};

verus! {

/// A concept of the shared knowledge graph.
#[derive(Debug)]
pub struct KnowledgeNode {
    pub concept: String,
    /// Subject area: physics, math, cs...
    pub domain: String,
    pub description: String,
    /// Concepts to know first
    pub prerequisites: Vec<String>,
    /// Typical misconceptions
    pub typical_misconceptions: Vec<String>,
    /// The best explanation found so far
    pub best_explanation: String,
    /// Socratic follow-up questions
    pub probing_questions: Vec<String>,
    /// Difficulty, in thousandths
    pub difficulty: u32,
    /// Who added it (a teacher's id)
    pub created_by: Option<String>,
    pub created_at: i64,
    pub updated_at: i64,
}

/// The content of a `KnowledgeNode`.
pub struct KnowledgeView {
    pub concept: Seq<char>,
    pub domain: Seq<char>,
    pub description: Seq<char>,
    pub prerequisites: Seq<Seq<char>>,
    pub misconceptions: Seq<Seq<char>>,
    pub best_explanation: Seq<char>,
    pub probing_questions: Seq<Seq<char>>,
    pub difficulty: u32,
    pub created_by: Option<Seq<char>>,
    pub created_at: i64,
    pub updated_at: i64,
}

/// The view of an optional string.
pub open spec fn opt_view(o: Option<String>) -> Option<Seq<char>> {
    match o {
        Some(s) => Some(s@),
        None => None,
    }
}

impl View for KnowledgeNode {
    type V = KnowledgeView;

    open spec fn view(&self) -> KnowledgeView {
        KnowledgeView {
            concept: self.concept@,
            domain: self.domain@,
            description: self.description@,
            prerequisites: views(self.prerequisites@),
            misconceptions: views(self.typical_misconceptions@),
            best_explanation: self.best_explanation@,
            probing_questions: views(self.probing_questions@),
            difficulty: self.difficulty,
            created_by: opt_view(self.created_by),
            created_at: self.created_at,
            updated_at: self.updated_at,
        }
    }
}

impl KnowledgeNode {
    /// A new, empty note on `concept` in `domain`, of middling difficulty,
    /// stamped with the current time.
    pub fn new(concept: &str, domain: &str) -> (r: KnowledgeNode)
        ensures
            r@.concept == concept@,
            r@.domain == domain@,
            r@.description == Seq::<char>::empty(),
            r@.prerequisites == Seq::<Seq<char>>::empty(),
            r@.misconceptions == Seq::<Seq<char>>::empty(),
            r@.best_explanation == Seq::<char>::empty(),
            r@.probing_questions == Seq::<Seq<char>>::empty(),
            r@.difficulty == 500,
            r@.created_by is None,
            r@.created_at == r@.updated_at,
    {
        let now = now_micros();
        let r = KnowledgeNode {
            concept: owned(concept),
            domain: owned(domain),
            description: String::new(),
            prerequisites: Vec::new(),
            typical_misconceptions: Vec::new(),
            best_explanation: String::new(),
            probing_questions: Vec::new(),
            difficulty: 500,
            created_by: None,
            created_at: now,
            updated_at: now,
        };
        assert(r@.prerequisites =~= Seq::<Seq<char>>::empty());
        assert(r@.misconceptions =~= Seq::<Seq<char>>::empty());
        assert(r@.probing_questions =~= Seq::<Seq<char>>::empty());
        r
    }

    /// The probing question to ask: the first one listed (the keywords are
    /// not consulted).
    pub fn best_probe(&self, keywords: &[&str]) -> (r: Option<&str>)
        ensures
            self.probing_questions@.len() == 0 ==> r is None,
            self.probing_questions@.len() > 0 ==> (r matches Some(q) && q@ == self.probing_questions@[0]@),
    {
        if self.probing_questions.len() > 0 {
            Some(self.probing_questions[0].as_str())
        } else {
            None
        }
    }

    /// A copy holding the same values.
    pub fn copy(&self) -> (r: KnowledgeNode)
        ensures
            r@ == self@,
    {
        KnowledgeNode {
            concept: self.concept.clone(),
            domain: self.domain.clone(),
            description: self.description.clone(),
            prerequisites: clone_strings(&self.prerequisites),
            typical_misconceptions: clone_strings(&self.typical_misconceptions),
            best_explanation: self.best_explanation.clone(),
            probing_questions: clone_strings(&self.probing_questions),
            difficulty: self.difficulty,
            created_by: clone_opt(&self.created_by),
            created_at: self.created_at,
            updated_at: self.updated_at,
        }
    }
}

/// A frequently asked question with an answer template that has worked.
#[derive(Debug)]
pub struct FaqEntry {
    pub question: String,
    pub answer_template: String,
    pub domain: String,
    pub usage_count: u32,
    /// How often students understand after this answer, in thousandths
    pub effectiveness: u32,
    pub related_concepts: Vec<String>,
    pub created_at: i64,
}

/// The content of a `FaqEntry`.
pub struct FaqView {
    pub question: Seq<char>,
    pub answer_template: Seq<char>,
    pub domain: Seq<char>,
    pub usage_count: u32,
    pub effectiveness: u32,
    pub related_concepts: Seq<Seq<char>>,
    pub created_at: i64,
}

impl View for FaqEntry {
    type V = FaqView;

    open spec fn view(&self) -> FaqView {
        FaqView {
            question: self.question@,
            answer_template: self.answer_template@,
            domain: self.domain@,
            usage_count: self.usage_count,
            effectiveness: self.effectiveness,
            related_concepts: views(self.related_concepts@),
            created_at: self.created_at,
        }
    }
}

impl FaqEntry {
    /// A copy holding the same values.
    pub fn copy(&self) -> (r: FaqEntry)
        ensures
            r@ == self@,
    {
        FaqEntry {
            question: self.question.clone(),
            answer_template: self.answer_template.clone(),
            domain: self.domain.clone(),
            usage_count: self.usage_count,
            effectiveness: self.effectiveness,
            related_concepts: clone_strings(&self.related_concepts),
            created_at: self.created_at,
        }
    }
}

/// A teaching strategy that has worked across students.
#[derive(Debug)]
pub struct StrategyEntry {
    pub id: String,
    pub name: String,
    pub description: String,
    pub applicable_concepts: Vec<String>,
    /// Success rate, in thousandths
    pub success_rate: u32,
    pub times_used: u32,
    pub created_at: i64,
}

/// The content of a `StrategyEntry`.
pub struct StrategyView {
    pub id: Seq<char>,
    pub name: Seq<char>,
    pub description: Seq<char>,
    pub applicable_concepts: Seq<Seq<char>>,
    pub success_rate: u32,
    pub times_used: u32,
    pub created_at: i64,
}

impl View for StrategyEntry {
    type V = StrategyView;

    open spec fn view(&self) -> StrategyView {
        StrategyView {
            id: self.id@,
            name: self.name@,
            description: self.description@,
            applicable_concepts: views(self.applicable_concepts@),
            success_rate: self.success_rate,
            times_used: self.times_used,
            created_at: self.created_at,
        }
    }
}

impl StrategyEntry {
    /// A copy holding the same values.
    pub fn copy(&self) -> (r: StrategyEntry)
        ensures
            r@ == self@,
    {
        StrategyEntry {
            id: self.id.clone(),
            name: self.name.clone(),
            description: self.description.clone(),
            applicable_concepts: clone_strings(&self.applicable_concepts),
            success_rate: self.success_rate,
            times_used: self.times_used,
            created_at: self.created_at,
        }
    }
}

/// What is known of how students fare with one concept.
#[derive(Debug)]
pub struct ConceptStats {
    pub concept: String,
    pub total_exposures: u32,
    /// The mastery of every exposure added up, in thousandths: the average
    /// mastery is this over `total_exposures`
    pub mastery_total: u64,
    /// Each error seen, with how often
    pub common_errors: Vec<(String, u32)>,
    /// The confusion rate is `confusion_errors / confusion_base`: all errors
    /// seen over all exposures, as of the last exposure that came with an
    /// error (0 over 1 before any)
    pub confusion_errors: u32,
    pub confusion_base: u32,
}

/// The content of a `ConceptStats`.
pub struct ConceptView {
    pub concept: Seq<char>,
    pub total_exposures: u32,
    pub mastery_total: u64,
    pub errors: Seq<(Seq<char>, u32)>,
    pub confusion_errors: u32,
    pub confusion_base: u32,
}

/// The views of (text, count) pairs.
pub open spec fn count_views(v: Seq<(String, u32)>) -> Seq<(Seq<char>, u32)> {
    v.map_values(|p: (String, u32)| (p.0@, p.1))
}

impl View for ConceptStats {
    type V = ConceptView;

    open spec fn view(&self) -> ConceptView {
        ConceptView {
            concept: self.concept@,
            total_exposures: self.total_exposures,
            mastery_total: self.mastery_total,
            errors: count_views(self.common_errors@),
            confusion_errors: self.confusion_errors,
            confusion_base: self.confusion_base,
        }
    }
}

/// Statistics across all students.
#[derive(Debug)]
pub struct CrossStats {
    pub total_sessions: u32,
    pub total_students: u32,
    /// One entry per concept, in the order concepts were first seen
    pub concept_stats: Vec<ConceptStats>,
    /// The concepts students find hardest, at most ten, hardest first
    pub most_difficult: Vec<String>,
    pub updated_at: i64,
}

/// The content of a `CrossStats`.
pub struct StatsView {
    pub total_sessions: u32,
    pub total_students: u32,
    pub concepts: Seq<ConceptView>,
    pub most_difficult: Seq<Seq<char>>,
    pub updated_at: i64,
}

impl View for CrossStats {
    type V = StatsView;

    open spec fn view(&self) -> StatsView {
        StatsView {
            total_sessions: self.total_sessions,
            total_students: self.total_students,
            concepts: self.concept_stats@.map_values(|c: ConceptStats| c@),
            most_difficult: views(self.most_difficult@),
            updated_at: self.updated_at,
        }
    }
}

/// The position of the first key equal to `k`.
pub open spec fn first_index(keys: Seq<Seq<char>>, k: Seq<char>) -> Option<int>
    decreases keys.len(),
{
    if keys.len() == 0 {
        None
    } else if keys[0] == k {
        Some(0)
    } else {
        match first_index(keys.drop_first(), k) {
            Some(i) => Some(i + 1),
            None => None,
        }
    }
}

proof fn lemma_first_index(keys: Seq<Seq<char>>, k: Seq<char>, i: int)
    requires
        0 <= i <= keys.len(),
        forall|j: int| 0 <= j < i ==> keys[j] != k,
        i < keys.len() ==> keys[i] == k,
    ensures
        first_index(keys, k) == (if i < keys.len() {
            Some(i)
        } else {
            None::<int>
        }),
    decreases keys.len(),
{
    if keys.len() > 0 && i > 0 {
        assert forall|j: int| 0 <= j < i - 1 implies keys.drop_first()[j] != k by {
            assert(keys.drop_first()[j] == keys[j + 1]);
        }
        if i < keys.len() {
            assert(keys.drop_first()[i - 1] == keys[i]);
        }
        lemma_first_index(keys.drop_first(), k, i - 1);
    }
}

/// The concepts of notes.
pub open spec fn concepts_of(ns: Seq<KnowledgeView>) -> Seq<Seq<char>> {
    ns.map_values(|n: KnowledgeView| n.concept)
}

/// The ids of strategies.
pub open spec fn ids_of(ss: Seq<StrategyView>) -> Seq<Seq<char>> {
    ss.map_values(|s: StrategyView| s.id)
}

/// The views of notes.
pub open spec fn knowledge_views(v: Seq<KnowledgeNode>) -> Seq<KnowledgeView> {
    v.map_values(|n: KnowledgeNode| n@)
}

/// The views of FAQ entries.
pub open spec fn faq_views(v: Seq<FaqEntry>) -> Seq<FaqView> {
    v.map_values(|f: FaqEntry| f@)
}

/// The views of strategies.
pub open spec fn strategy_views(v: Seq<StrategyEntry>) -> Seq<StrategyView> {
    v.map_values(|s: StrategyEntry| s@)
}

/// A list keyed by text after storing `x` under key `k`: the first entry
/// with that key is replaced, or `x` is appended.
pub open spec fn upserted<T>(xs: Seq<T>, keys: Seq<Seq<char>>, k: Seq<char>, x: T) -> Seq<T> {
    match first_index(keys, k) {
        Some(i) => xs.update(i, x),
        None => xs.push(x),
    }
}

/// `n` ones: the denominators that make ranking by ratio rank by value.
pub open spec fn ones(n: nat) -> Seq<u32> {
    Seq::new(n, |i: int| 1u32)
}

/// The items of `xs` ordered by `keys`, greatest first, equal keys in
/// their order.
pub open spec fn by_key_desc<T>(xs: Seq<T>, keys: Seq<u64>) -> Seq<T> {
    rank_order(keys, ones(keys.len())).map_values(|i: usize| xs[i as int])
}

/// A time as an unsigned key of the same order.
pub open spec fn stamp_key(t: i64) -> u64 {
    (t as int + 0x8000_0000_0000_0000) as u64
}

fn stamp_key_of(t: i64) -> (r: u64)
    ensures
        r == stamp_key(t),
        r as int == t as int + 0x8000_0000_0000_0000,
{
    ((t as i128) + 0x8000_0000_0000_0000i128) as u64
}

fn ones_of(n: usize) -> (r: Vec<u32>)
    ensures
        r@ == ones(n as nat),
{
    let mut r: Vec<u32> = Vec::new();
    let mut i: usize = 0;
    while i < n
        invariant
            i <= n,
            r@ == ones(i as nat),
        decreases n - i,
    {
        r.push(1);
        assert(r@ =~= ones((i + 1) as nat));
        i += 1;
    }
    r
}

/// A note holds the (lowercased) query in its concept, description or
/// domain, each compared lowercased.
pub open spec fn note_mentions(n: KnowledgeView, q: Seq<char>) -> bool {
    contains(lowercase(n.concept), q) || contains(lowercase(n.description), q) || contains(lowercase(n.domain), q)
}

/// The notes that mention `q`, in order.
pub open spec fn notes_mentioning(ns: Seq<KnowledgeView>, q: Seq<char>) -> Seq<KnowledgeView>
    decreases ns.len(),
{
    if ns.len() == 0 {
        Seq::empty()
    } else {
        let p = notes_mentioning(ns.drop_last(), q);
        if note_mentions(ns.last(), q) {
            p.push(ns.last())
        } else {
            p
        }
    }
}

/// Notes, most recently updated first.
pub open spec fn newest_first(ns: Seq<KnowledgeView>) -> Seq<KnowledgeView> {
    by_key_desc(ns, ns.map_values(|n: KnowledgeView| stamp_key(n.updated_at)))
}

/// A FAQ entry holds the (lowercased) query in its question or answer,
/// each compared lowercased.
pub open spec fn faq_mentions(f: FaqView, q: Seq<char>) -> bool {
    contains(lowercase(f.question), q) || contains(lowercase(f.answer_template), q)
}

/// The FAQ entries that mention `q`, in order.
pub open spec fn faqs_mentioning(fs: Seq<FaqView>, q: Seq<char>) -> Seq<FaqView>
    decreases fs.len(),
{
    if fs.len() == 0 {
        Seq::empty()
    } else {
        let p = faqs_mentioning(fs.drop_last(), q);
        if faq_mentions(fs.last(), q) {
            p.push(fs.last())
        } else {
            p
        }
    }
}

/// FAQ entries, most effective first.
pub open spec fn most_effective_first(fs: Seq<FaqView>) -> Seq<FaqView> {
    by_key_desc(fs, fs.map_values(|f: FaqView| f.effectiveness as u64))
}

/// FAQ entries, most used first.
pub open spec fn most_used_first(fs: Seq<FaqView>) -> Seq<FaqView> {
    by_key_desc(fs, fs.map_values(|f: FaqView| f.usage_count as u64))
}

/// Strategies, most successful first.
pub open spec fn most_successful_first(ss: Seq<StrategyView>) -> Seq<StrategyView> {
    by_key_desc(ss, ss.map_values(|s: StrategyView| s.success_rate as u64))
}

/// The strategies that apply to `concept`, in order.
pub open spec fn strategies_for(ss: Seq<StrategyView>, concept: Seq<char>) -> Seq<StrategyView>
    decreases ss.len(),
{
    if ss.len() == 0 {
        Seq::empty()
    } else {
        let p = strategies_for(ss.drop_last(), concept);
        if ss.last().applicable_concepts.contains(concept) {
            p.push(ss.last())
        } else {
            p
        }
    }
}

/// The first `n` items of `xs` (all of them when fewer).
pub open spec fn first_n<T>(xs: Seq<T>, n: int) -> Seq<T> {
    if n < xs.len() {
        xs.take(n)
    } else {
        xs
    }
}

/// Copies of `fs` in the order `keys` ranks them, greatest first, with that
/// order.
fn arrange_faqs(fs: &Vec<FaqEntry>, keys: &Vec<u64>) -> (r: (Vec<FaqEntry>, Vec<usize>))
    requires
        keys.len() == fs.len(),
    ensures
        faq_views(r.0@) == by_key_desc(faq_views(fs@), keys@),
        r.1@ == rank_order(keys@, ones(keys.len() as nat)),
        r.1@.len() == r.0@.len(),
        crate::order::ranked(keys@, ones(keys.len() as nat), r.1@),
        forall|i: int| 0 <= i < r.0@.len() ==> #[trigger] r.0@[i]@ == fs@[r.1@[i] as int]@ && r.1@[i] < fs.len(),
{
    let ghost ms = faq_views(fs@);
    let dens = ones_of(keys.len());
    let order = rank_desc(keys, &dens);
    let mut r: Vec<FaqEntry> = Vec::new();
    let mut m: usize = 0;
    while m < order.len()
        invariant
            m <= order.len() == fs.len() == keys.len(),
            ms == faq_views(fs@),
            order@ == rank_order(keys@, dens@),
            dens@ == ones(keys.len() as nat),
            forall|t: int| 0 <= t < order.len() ==> #[trigger] order@[t] < fs.len(),
            faq_views(r@) == order@.take(m as int).map_values(|x: usize| ms[x as int]),
            r@.len() == m,
            forall|i: int| 0 <= i < m ==> #[trigger] r@[i]@ == fs@[order@[i] as int]@,
        decreases order.len() - m,
    {
        let ghost before = faq_views(r@);
        let x = order[m];
        r.push(fs[x].copy());
        proof {
            assert(ms[x as int] == fs@[x as int]@);
            assert(order@.take(m + 1) =~= order@.take(m as int).push(x));
            assert(faq_views(r@) =~= before.push(ms[x as int]));
            assert(order@.take(m + 1).map_values(|y: usize| ms[y as int]) =~= order@.take(m as int).map_values(
                |y: usize| ms[y as int],
            ).push(ms[x as int]));
        }
        m += 1;
    }
    assert(order@.take(order.len() as int) =~= order@);
    (r, order)
}

/// Whether `v` holds the text `s`.
fn holds_text(v: &Vec<String>, s: &str) -> (r: bool)
    ensures
        r == views(v@).contains(s@),
{
    let mut i: usize = 0;
    while i < v.len()
        invariant
            i <= v.len(),
            forall|j: int| 0 <= j < i ==> views(v@)[j] != s@,
        decreases v.len() - i,
    {
        assert(views(v@)[i as int] == v@[i as int]@);
        if str_eq(v[i].as_str(), s) {
            assert(views(v@).contains(s@));
            return true;
        }
        i += 1;
    }
    false
}

/// The descriptions of counted errors.
pub open spec fn error_names(errs: Seq<(Seq<char>, u32)>) -> Seq<Seq<char>> {
    errs.map_values(|p: (Seq<char>, u32)| p.0)
}

/// All counts added up.
pub open spec fn error_sum(errs: Seq<(Seq<char>, u32)>) -> nat
    decreases errs.len(),
{
    if errs.len() == 0 {
        0
    } else {
        error_sum(errs.drop_last()) + errs.last().1 as nat
    }
}

/// The error counts after one more `e`: its count goes up by one, or it is
/// added with a count of one.
pub open spec fn counted(errs: Seq<(Seq<char>, u32)>, e: Seq<char>) -> Seq<(Seq<char>, u32)> {
    match first_index(error_names(errs), e) {
        Some(i) => errs.update(i, (e, (errs[i].1 + 1) as u32)),
        None => errs.push((e, 1u32)),
    }
}

/// A concept's statistics after one more exposure with `mastery`: when it
/// came with an error, the error is counted and the confusion rate becomes
/// all errors over all exposures; without one the rate is left as it was.
pub open spec fn exposed(c: ConceptView, mastery: u32, err: Option<Seq<char>>) -> ConceptView {
    let errs = match err {
        Some(e) => counted(c.errors, e),
        None => c.errors,
    };
    ConceptView {
        concept: c.concept,
        total_exposures: (c.total_exposures + 1) as u32,
        mastery_total: (c.mastery_total + mastery) as u64,
        errors: errs,
        confusion_errors: if err is Some {
            error_sum(errs) as u32
        } else {
            c.confusion_errors
        },
        confusion_base: if err is Some {
            (c.total_exposures + 1) as u32
        } else {
            c.confusion_base
        },
    }
}

/// A concept not seen before.
pub open spec fn fresh_concept(concept: Seq<char>) -> ConceptView {
    ConceptView {
        concept,
        total_exposures: 0,
        mastery_total: 0,
        errors: Seq::empty(),
        confusion_errors: 0,
        confusion_base: 1,
    }
}

/// The concepts' names.
pub open spec fn concept_names(cs: Seq<ConceptView>) -> Seq<Seq<char>> {
    cs.map_values(|c: ConceptView| c.concept)
}

/// The per-concept statistics after an exposure to `concept`: its entry
/// (a fresh one appended when there is none) is updated by `exposed`.
pub open spec fn with_exposure(cs: Seq<ConceptView>, concept: Seq<char>, mastery: u32, err: Option<Seq<char>>) -> Seq<
    ConceptView,
> {
    match first_index(concept_names(cs), concept) {
        Some(i) => cs.update(i, exposed(cs[i], mastery, err)),
        None => cs.push(exposed(fresh_concept(concept), mastery, err)),
    }
}

/// The names of the ten concepts (or fewer) with the highest confusion
/// rate, highest first; equal rates keep the order concepts were first seen.
pub open spec fn hardest(cs: Seq<ConceptView>) -> Seq<Seq<char>> {
    first_n(
        rank_order(
            cs.map_values(|c: ConceptView| c.confusion_errors as u64),
            cs.map_values(|c: ConceptView| c.confusion_base),
        ).map_values(|i: usize| cs[i as int].concept),
        10,
    )
}

/// The statistics keep their counters in range: no concept has more
/// exposures than there were sessions, more errors than exposures, or more
/// mastery than `u32::MAX` per exposure, and every confusion rate has a
/// positive base.
pub open spec fn stats_ok(st: StatsView) -> bool {
    forall|k: int| 0 <= k < st.concepts.len() ==> {
        let c = #[trigger] st.concepts[k];
        &&& c.total_exposures <= st.total_sessions
        &&& error_sum(c.errors) <= c.total_exposures
        &&& c.mastery_total <= c.total_exposures * 0xffff_ffffnat
        &&& c.confusion_base >= 1
    }
}

proof fn lemma_count_within_sum(errs: Seq<(Seq<char>, u32)>, i: int)
    requires
        0 <= i < errs.len(),
    ensures
        errs[i].1 <= error_sum(errs),
    decreases errs.len(),
{
    if i < errs.len() - 1 {
        lemma_count_within_sum(errs.drop_last(), i);
    }
}

proof fn lemma_prefix_sum_within(errs: Seq<(Seq<char>, u32)>, n: int)
    requires
        0 <= n <= errs.len(),
    ensures
        error_sum(errs.take(n)) <= error_sum(errs),
    decreases errs.len() - n,
{
    if n < errs.len() {
        lemma_prefix_sum_within(errs, n + 1);
        assert(errs.take(n + 1).drop_last() =~= errs.take(n));
    } else {
        assert(errs.take(n) =~= errs);
    }
}

proof fn lemma_sum_update(errs: Seq<(Seq<char>, u32)>, i: int, x: (Seq<char>, u32))
    requires
        0 <= i < errs.len(),
    ensures
        error_sum(errs.update(i, x)) == error_sum(errs) - errs[i].1 + x.1,
    decreases errs.len(),
{
    if i < errs.len() - 1 {
        lemma_sum_update(errs.drop_last(), i, x);
        assert(errs.update(i, x).drop_last() =~= errs.drop_last().update(i, x));
    } else {
        assert(errs.update(i, x).drop_last() =~= errs.drop_last());
    }
}

/// The position of the first pair whose text is `e`.
fn find_error(errs: &Vec<(String, u32)>, e: &str) -> (r: Option<usize>)
    ensures
        r matches Some(i) ==> first_index(error_names(count_views(errs@)), e@) == Some(i as int) && i < errs@.len(),
        r is None ==> first_index(error_names(count_views(errs@)), e@) is None,
{
    let ghost keys = error_names(count_views(errs@));
    let mut i: usize = 0;
    while i < errs.len()
        invariant
            i <= errs.len(),
            keys == error_names(count_views(errs@)),
            forall|j: int| 0 <= j < i ==> keys[j] != e@,
        decreases errs.len() - i,
    {
        assert(keys[i as int] == errs@[i as int].0@);
        if str_eq(errs[i].0.as_str(), e) {
            proof {
                lemma_first_index(keys, e@, i as int);
            }
            return Some(i);
        }
        i += 1;
    }
    proof {
        lemma_first_index(keys, e@, i as int);
    }
    None
}

/// A copy of (text, count) pairs.
fn copy_counts(v: &Vec<(String, u32)>) -> (r: Vec<(String, u32)>)
    ensures
        count_views(r@) == count_views(v@),
{
    let mut r: Vec<(String, u32)> = Vec::new();
    let mut i: usize = 0;
    while i < v.len()
        invariant
            i <= v.len(),
            count_views(r@) == count_views(v@).take(i as int),
        decreases v.len() - i,
    {
        let ghost before = count_views(r@);
        r.push((v[i].0.clone(), v[i].1));
        assert(count_views(r@) =~= before.push((v@[i as int].0@, v@[i as int].1)));
        assert(count_views(v@).take(i + 1) =~= count_views(v@).take(i as int).push((v@[i as int].0@, v@[i as int].1)));
        i += 1;
    }
    assert(count_views(v@).take(v.len() as int) =~= count_views(v@));
    r
}

impl ConceptStats {
    /// A copy holding the same values.
    pub fn copy(&self) -> (r: ConceptStats)
        ensures
            r@ == self@,
    {
        ConceptStats {
            concept: self.concept.clone(),
            total_exposures: self.total_exposures,
            mastery_total: self.mastery_total,
            common_errors: copy_counts(&self.common_errors),
            confusion_errors: self.confusion_errors,
            confusion_base: self.confusion_base,
        }
    }
}

impl CrossStats {
    /// A copy holding the same values.
    pub fn copy(&self) -> (r: CrossStats)
        ensures
            r@ == self@,
    {
        let mut cs: Vec<ConceptStats> = Vec::new();
        let ghost all = self@.concepts;
        let mut i: usize = 0;
        while i < self.concept_stats.len()
            invariant
                i <= self.concept_stats.len(),
                all == self@.concepts,
                cs@.map_values(|c: ConceptStats| c@) == all.take(i as int),
            decreases self.concept_stats.len() - i,
        {
            let ghost before = cs@.map_values(|c: ConceptStats| c@);
            cs.push(self.concept_stats[i].copy());
            assert(cs@.map_values(|c: ConceptStats| c@) =~= before.push(self.concept_stats@[i as int]@));
            assert(all.take(i + 1) =~= all.take(i as int).push(self.concept_stats@[i as int]@));
            i += 1;
        }
        assert(all.take(self.concept_stats.len() as int) =~= all);
        CrossStats {
            total_sessions: self.total_sessions,
            total_students: self.total_students,
            concept_stats: cs,
            most_difficult: clone_strings(&self.most_difficult),
            updated_at: self.updated_at,
        }
    }
}

/// The context lines of one note: its concept and description, then its
/// misconceptions when it lists any.
pub open spec fn note_parts(n: KnowledgeView) -> Seq<Seq<char>> {
    if n.misconceptions.len() == 0 {
        seq!["• "@ + n.concept + ": "@ + n.description]
    } else {
        seq!["• "@ + n.concept + ": "@ + n.description, "  常见误解: "@ + join(n.misconceptions, "、"@)]
    }
}

/// The context lines of notes, in order.
pub open spec fn note_lines(ns: Seq<KnowledgeView>) -> Seq<Seq<char>>
    decreases ns.len(),
{
    if ns.len() == 0 {
        Seq::empty()
    } else {
        note_lines(ns.drop_last()) + note_parts(ns.last())
    }
}

/// The context lines of FAQ entries: their questions.
pub open spec fn question_lines(fs: Seq<FaqView>) -> Seq<Seq<char>> {
    fs.map_values(|f: FaqView| "  Q: "@ + f.question)
}

/// The lines of the shared context: for a hint, the notes mentioning it
/// (newest first) and the questions of the three most effective FAQ entries
/// mentioning it; then the five hardest concepts. Each present block ends
/// with a blank line.
pub open spec fn shared_parts(
    ns: Seq<KnowledgeView>,
    fs: Seq<FaqView>,
    hard: Seq<Seq<char>>,
    hint: Option<Seq<char>>,
) -> Seq<Seq<char>> {
    let notes = match hint {
        Some(h) => {
            let found = newest_first(notes_mentioning(ns, lowercase(h)));
            if found.len() > 0 {
                seq!["【共享知识库】"@] + note_lines(found) + seq![Seq::<char>::empty()]
            } else {
                Seq::empty()
            }
        },
        None => Seq::empty(),
    };
    let faqs = match hint {
        Some(h) => {
            let found = most_effective_first(faqs_mentioning(fs, lowercase(h)));
            if found.len() > 0 {
                seq!["【高频问答】"@] + question_lines(first_n(found, 3)) + seq![Seq::<char>::empty()]
            } else {
                Seq::empty()
            }
        },
        None => Seq::empty(),
    };
    let trends = if hard.len() > 0 {
        seq!["【全局难点】最近学生普遍在以下概念遇到困难: "@ + join(first_n(hard, 5), "、"@), Seq::<char>::empty()]
    } else {
        Seq::empty()
    };
    notes + faqs + trends
}

/// The store of shared knowledge.
pub struct SharedMemory {
    knowledge: Vec<KnowledgeNode>,
    faqs: Vec<FaqEntry>,
    stats: CrossStats,
    strategies: Vec<StrategyEntry>,
    persist_path: Option<String>,
}

impl SharedMemory {
    /// The concept notes, in the order first stored.
    pub closed spec fn knowledge(&self) -> Seq<KnowledgeView> {
        knowledge_views(self.knowledge@)
    }

    /// The FAQ entries, in the order added.
    pub closed spec fn faq_list(&self) -> Seq<FaqView> {
        faq_views(self.faqs@)
    }

    /// The cross-student statistics.
    pub closed spec fn stats_view(&self) -> StatsView {
        self.stats@
    }

    /// The strategies, in the order first stored.
    pub closed spec fn strategy_list(&self) -> Seq<StrategyView> {
        strategy_views(self.strategies@)
    }

    /// Where the store is kept, if anywhere.
    pub closed spec fn path(&self) -> Option<Seq<char>> {
        opt_view(self.persist_path)
    }

    /// An empty store, its statistics stamped with the current time.
    pub fn new() -> (r: SharedMemory)
        ensures
            r.knowledge() == Seq::<KnowledgeView>::empty(),
            r.faq_list() == Seq::<FaqView>::empty(),
            r.strategy_list() == Seq::<StrategyView>::empty(),
            r.stats_view().total_sessions == 0,
            r.stats_view().total_students == 0,
            r.stats_view().concepts == Seq::<ConceptView>::empty(),
            r.stats_view().most_difficult == Seq::<Seq<char>>::empty(),
            r.path() is None,
            r.wf(),
    {
        let r = SharedMemory {
            knowledge: Vec::new(),
            faqs: Vec::new(),
            stats: CrossStats {
                total_sessions: 0,
                total_students: 0,
                concept_stats: Vec::new(),
                most_difficult: Vec::new(),
                updated_at: now_micros(),
            },
            strategies: Vec::new(),
            persist_path: None,
        };
        assert(r.knowledge() =~= Seq::<KnowledgeView>::empty());
        assert(r.faq_list() =~= Seq::<FaqView>::empty());
        assert(r.strategy_list() =~= Seq::<StrategyView>::empty());
        assert(r.stats_view().concepts =~= Seq::<ConceptView>::empty());
        assert(r.stats_view().most_difficult =~= Seq::<Seq<char>>::empty());
        r
    }

    /// The same store, kept at `path`.
    pub fn with_persistence(self, path: &str) -> (r: SharedMemory)
        ensures
            r.path() == Some(path@),
            r.knowledge() == self.knowledge(),
            r.faq_list() == self.faq_list(),
            r.strategy_list() == self.strategy_list(),
            r.stats_view() == self.stats_view(),
    {
        let mut r = self;
        r.persist_path = Some(owned(path));
        r
    }

    fn find_concept(&self, concept: &str) -> (r: Option<usize>)
        ensures
            r matches Some(i) ==> first_index(concepts_of(self.knowledge()), concept@) == Some(i as int) && i
                < self.knowledge@.len(),
            r is None ==> first_index(concepts_of(self.knowledge()), concept@) is None,
    {
        let ghost keys = concepts_of(self.knowledge());
        let mut i: usize = 0;
        while i < self.knowledge.len()
            invariant
                i <= self.knowledge.len(),
                keys == concepts_of(self.knowledge()),
                forall|j: int| 0 <= j < i ==> keys[j] != concept@,
            decreases self.knowledge.len() - i,
        {
            if str_eq(self.knowledge[i].concept.as_str(), concept) {
                proof {
                    lemma_first_index(keys, concept@, i as int);
                }
                return Some(i);
            }
            i += 1;
        }
        proof {
            lemma_first_index(keys, concept@, i as int);
        }
        None
    }

    /// Stores a note under its concept, replacing the note already there.
    pub fn upsert_knowledge(&mut self, node: KnowledgeNode)
        ensures
            final(self).knowledge() == upserted(old(self).knowledge(), concepts_of(old(self).knowledge()), node@.concept,
                node@),
            final(self).faq_list() == old(self).faq_list(),
            final(self).strategy_list() == old(self).strategy_list(),
            final(self).stats_view() == old(self).stats_view(),
            final(self).path() == old(self).path(),
    {
        let ghost before = self.knowledge();
        let ghost v = node@;
        match self.find_concept(node.concept.as_str()) {
            Some(i) => {
                assert(first_index(concepts_of(before), v.concept) == Some(i as int));
                self.knowledge.set(i, node);
                assert(self.knowledge() =~= before.update(i as int, v));
            },
            None => {
                assert(first_index(concepts_of(before), v.concept) is None);
                self.knowledge.push(node);
                assert(self.knowledge() =~= before.push(v));
            },
        }
    }

    /// The note on a concept, if stored.
    pub fn get_knowledge(&self, concept: &str) -> (r: Option<KnowledgeNode>)
        ensures
            match first_index(concepts_of(self.knowledge()), concept@) {
                Some(i) => r matches Some(n) && n@ == self.knowledge()[i],
                None => r is None,
            },
    {
        match self.find_concept(concept) {
            Some(i) => {
                let n = self.knowledge[i].copy();
                assert(first_index(concepts_of(self.knowledge()), concept@) == Some(i as int));
                assert(self.knowledge()[i as int] == self.knowledge@[i as int]@);
                Some(n)
            },
            None => None,
        }
    }

    /// All notes, in the order first stored.
    pub fn list_knowledge(&self) -> (r: Vec<KnowledgeNode>)
        ensures
            knowledge_views(r@) == self.knowledge(),
    {
        let mut r: Vec<KnowledgeNode> = Vec::new();
        let mut i: usize = 0;
        while i < self.knowledge.len()
            invariant
                i <= self.knowledge.len(),
                knowledge_views(r@) == self.knowledge().take(i as int),
            decreases self.knowledge.len() - i,
        {
            let ghost before = knowledge_views(r@);
            r.push(self.knowledge[i].copy());
            assert(knowledge_views(r@) =~= before.push(self.knowledge[i as int]@));
            assert(self.knowledge().take(i + 1) =~= self.knowledge().take(i as int).push(self.knowledge[i as int]@));
            i += 1;
        }
        assert(self.knowledge().take(self.knowledge.len() as int) =~= self.knowledge());
        r
    }

    /// Adds a FAQ entry at the end.
    pub fn add_faq(&mut self, entry: FaqEntry)
        ensures
            final(self).faq_list() == old(self).faq_list().push(entry@),
            final(self).knowledge() == old(self).knowledge(),
            final(self).strategy_list() == old(self).strategy_list(),
            final(self).stats_view() == old(self).stats_view(),
            final(self).path() == old(self).path(),
    {
        let ghost before = self.faq_list();
        let ghost v = entry@;
        self.faqs.push(entry);
        assert(self.faq_list() =~= before.push(v));
    }

    fn find_strategy(&self, id: &str) -> (r: Option<usize>)
        ensures
            r matches Some(i) ==> first_index(ids_of(self.strategy_list()), id@) == Some(i as int) && i
                < self.strategies@.len(),
            r is None ==> first_index(ids_of(self.strategy_list()), id@) is None,
    {
        let ghost keys = ids_of(self.strategy_list());
        let mut i: usize = 0;
        while i < self.strategies.len()
            invariant
                i <= self.strategies.len(),
                keys == ids_of(self.strategy_list()),
                forall|j: int| 0 <= j < i ==> keys[j] != id@,
            decreases self.strategies.len() - i,
        {
            if str_eq(self.strategies[i].id.as_str(), id) {
                proof {
                    lemma_first_index(keys, id@, i as int);
                }
                return Some(i);
            }
            i += 1;
        }
        proof {
            lemma_first_index(keys, id@, i as int);
        }
        None
    }

    /// Stores a strategy under its id, replacing the one already there.
    pub fn add_strategy(&mut self, entry: StrategyEntry)
        ensures
            final(self).strategy_list() == upserted(old(self).strategy_list(), ids_of(old(self).strategy_list()),
                entry@.id, entry@),
            final(self).knowledge() == old(self).knowledge(),
            final(self).faq_list() == old(self).faq_list(),
            final(self).stats_view() == old(self).stats_view(),
            final(self).path() == old(self).path(),
    {
        let ghost before = self.strategy_list();
        let ghost v = entry@;
        match self.find_strategy(entry.id.as_str()) {
            Some(i) => {
                assert(first_index(ids_of(before), v.id) == Some(i as int));
                self.strategies.set(i, entry);
                assert(self.strategy_list() =~= before.update(i as int, v));
            },
            None => {
                assert(first_index(ids_of(before), v.id) is None);
                self.strategies.push(entry);
                assert(self.strategy_list() =~= before.push(v));
            },
        }
    }

    /// The notes whose concept, description or domain holds `query`
    /// (compared lowercased), most recently updated first; notes updated at
    /// the same time keep the order they were stored in.
    pub fn search_knowledge(&self, query: &str) -> (r: Vec<KnowledgeNode>)
        ensures
            knowledge_views(r@) == newest_first(notes_mentioning(self.knowledge(), lowercase(query@))),
            forall|i: int, j: int| 0 <= i < j < r@.len() ==> r@[i].updated_at >= r@[j].updated_at,
    {
        let q = to_lowercase(query);
        let ghost ns = self.knowledge();
        let mut matched: Vec<KnowledgeNode> = Vec::new();
        let mut i: usize = 0;
        while i < self.knowledge.len()
            invariant
                i <= self.knowledge.len(),
                ns == self.knowledge(),
                knowledge_views(matched@) == notes_mentioning(ns.take(i as int), q@),
            decreases self.knowledge.len() - i,
        {
            let n = &self.knowledge[i];
            assert(ns.take(i + 1).drop_last() =~= ns.take(i as int));
            assert(ns.take(i + 1).last() == n@);
            if str_contains(to_lowercase(n.concept.as_str()).as_str(), q.as_str())
                || str_contains(to_lowercase(n.description.as_str()).as_str(), q.as_str())
                || str_contains(to_lowercase(n.domain.as_str()).as_str(), q.as_str()) {
                let ghost before = knowledge_views(matched@);
                matched.push(n.copy());
                assert(knowledge_views(matched@) =~= before.push(n@));
            }
            i += 1;
        }
        assert(ns.take(self.knowledge.len() as int) =~= ns);
        let ghost ms = knowledge_views(matched@);
        let mut keys: Vec<u64> = Vec::new();
        let mut k: usize = 0;
        while k < matched.len()
            invariant
                k <= matched.len(),
                ms == knowledge_views(matched@),
                keys@ == ms.take(k as int).map_values(|n: KnowledgeView| stamp_key(n.updated_at)),
            decreases matched.len() - k,
        {
            let key = stamp_key_of(matched[k].updated_at);
            keys.push(key);
            assert(keys@ =~= ms.take(k + 1).map_values(|n: KnowledgeView| stamp_key(n.updated_at)));
            k += 1;
        }
        assert(ms.take(matched.len() as int) =~= ms);
        let dens = ones_of(keys.len());
        let order = rank_desc(&keys, &dens);
        let mut r: Vec<KnowledgeNode> = Vec::new();
        let mut m: usize = 0;
        while m < order.len()
            invariant
                m <= order.len() == matched.len() == keys.len(),
                ms == knowledge_views(matched@),
                order@ == rank_order(keys@, dens@),
                dens@ == ones(keys.len() as nat),
                forall|t: int| 0 <= t < order.len() ==> #[trigger] order@[t] < matched.len(),
                knowledge_views(r@) == order@.take(m as int).map_values(|x: usize| ms[x as int]),
            decreases order.len() - m,
        {
            let ghost before = knowledge_views(r@);
            let x = order[m];
            r.push(matched[x].copy());
            proof {
                assert(ms[x as int] == matched@[x as int]@);
                assert(order@.take(m + 1) =~= order@.take(m as int).push(x));
                assert(knowledge_views(r@) =~= before.push(ms[x as int]));
                assert(order@.take(m + 1).map_values(|y: usize| ms[y as int]) =~= order@.take(m as int).map_values(
                    |y: usize| ms[y as int],
                ).push(ms[x as int]));
            }
            m += 1;
        }
        assert(order@.take(order.len() as int) =~= order@);
        proof {
            assert(keys@ =~= ms.map_values(|n: KnowledgeView| stamp_key(n.updated_at)));
            assert forall|i: int, j: int| 0 <= i < j < r@.len() implies r@[i].updated_at >= r@[j].updated_at by {
                assert(crate::order::ranks_above(keys@, dens@, order@[i], order@[j]));
                assert(dens@[order@[i] as int] == 1u32);
                assert(dens@[order@[j] as int] == 1u32);
                assert(knowledge_views(r@)[i] == r@[i]@);
                assert(knowledge_views(r@)[j] == r@[j]@);
                assert(order@.map_values(|x: usize| ms[x as int])[i] == ms[order@[i] as int]);
                assert(order@.map_values(|x: usize| ms[x as int])[j] == ms[order@[j] as int]);
                assert(keys@[order@[i] as int] as int == ms[order@[i] as int].updated_at as int + 0x8000_0000_0000_0000);
                assert(keys@[order@[j] as int] as int == ms[order@[j] as int].updated_at as int + 0x8000_0000_0000_0000);
            }
        }
        r
    }

    /// The FAQ entries whose question or answer holds `query` (compared
    /// lowercased), most effective first; equally effective ones keep the
    /// order they were added in.
    pub fn search_faqs(&self, query: &str) -> (r: Vec<FaqEntry>)
        ensures
            faq_views(r@) == most_effective_first(faqs_mentioning(self.faq_list(), lowercase(query@))),
            forall|i: int, j: int| 0 <= i < j < r@.len() ==> r@[i].effectiveness >= r@[j].effectiveness,
    {
        let q = to_lowercase(query);
        let ghost fs = self.faq_list();
        let mut matched: Vec<FaqEntry> = Vec::new();
        let mut i: usize = 0;
        while i < self.faqs.len()
            invariant
                i <= self.faqs.len(),
                fs == self.faq_list(),
                faq_views(matched@) == faqs_mentioning(fs.take(i as int), q@),
            decreases self.faqs.len() - i,
        {
            let f = &self.faqs[i];
            assert(fs.take(i + 1).drop_last() =~= fs.take(i as int));
            assert(fs.take(i + 1).last() == f@);
            if str_contains(to_lowercase(f.question.as_str()).as_str(), q.as_str())
                || str_contains(to_lowercase(f.answer_template.as_str()).as_str(), q.as_str()) {
                let ghost before = faq_views(matched@);
                matched.push(f.copy());
                assert(faq_views(matched@) =~= before.push(f@));
            }
            i += 1;
        }
        assert(fs.take(self.faqs.len() as int) =~= fs);
        let ghost ms = faq_views(matched@);
        let mut keys: Vec<u64> = Vec::new();
        let mut k: usize = 0;
        while k < matched.len()
            invariant
                k <= matched.len(),
                ms == faq_views(matched@),
                keys@ == ms.take(k as int).map_values(|f: FaqView| f.effectiveness as u64),
            decreases matched.len() - k,
        {
            keys.push(matched[k].effectiveness as u64);
            assert(keys@ =~= ms.take(k + 1).map_values(|f: FaqView| f.effectiveness as u64));
            k += 1;
        }
        assert(ms.take(matched.len() as int) =~= ms);
        let (r, order) = arrange_faqs(&matched, &keys);
        proof {
            assert(keys@ =~= ms.map_values(|f: FaqView| f.effectiveness as u64));
            assert forall|i: int, j: int| 0 <= i < j < r@.len() implies r@[i].effectiveness >= r@[j].effectiveness by {
                assert(crate::order::ranks_above(keys@, ones(keys.len() as nat), order@[i], order@[j]));
                assert(r@[i]@ == matched@[order@[i] as int]@);
                assert(r@[j]@ == matched@[order@[j] as int]@);
                assert(ms[order@[i] as int] == matched@[order@[i] as int]@);
                assert(ms[order@[j] as int] == matched@[order@[j] as int]@);
                assert(ones(keys.len() as nat)[order@[i] as int] == 1u32);
                assert(ones(keys.len() as nat)[order@[j] as int] == 1u32);
            }
        }
        r
    }

    /// The `n` most used FAQ entries (all of them when fewer), most used
    /// first; equally used ones keep the order they were added in.
    pub fn top_faqs(&self, n: usize) -> (r: Vec<FaqEntry>)
        ensures
            faq_views(r@) == first_n(most_used_first(self.faq_list()), n as int),
            forall|i: int, j: int| 0 <= i < j < r@.len() ==> r@[i].usage_count >= r@[j].usage_count,
    {
        let ghost fs = self.faq_list();
        let mut keys: Vec<u64> = Vec::new();
        let mut k: usize = 0;
        while k < self.faqs.len()
            invariant
                k <= self.faqs.len(),
                fs == self.faq_list(),
                keys@ == fs.take(k as int).map_values(|f: FaqView| f.usage_count as u64),
            decreases self.faqs.len() - k,
        {
            keys.push(self.faqs[k].usage_count as u64);
            assert(keys@ =~= fs.take(k + 1).map_values(|f: FaqView| f.usage_count as u64));
            k += 1;
        }
        assert(fs.take(self.faqs.len() as int) =~= fs);
        let (mut r, order) = arrange_faqs(&self.faqs, &keys);
        proof {
            assert(keys@ =~= fs.map_values(|f: FaqView| f.usage_count as u64));
            assert forall|i: int, j: int| 0 <= i < j < r@.len() implies r@[i].usage_count >= r@[j].usage_count by {
                assert(crate::order::ranks_above(keys@, ones(keys.len() as nat), order@[i], order@[j]));
                assert(r@[i]@ == self.faqs@[order@[i] as int]@);
                assert(r@[j]@ == self.faqs@[order@[j] as int]@);
                assert(fs[order@[i] as int] == self.faqs@[order@[i] as int]@);
                assert(fs[order@[j] as int] == self.faqs@[order@[j] as int]@);
                assert(ones(keys.len() as nat)[order@[i] as int] == 1u32);
                assert(ones(keys.len() as nat)[order@[j] as int] == 1u32);
            }
        }
        let ghost all = r@;
        r.truncate(n);
        proof {
            if n < all.len() {
                assert(r@ =~= all.take(n as int));
                assert(faq_views(r@) =~= faq_views(all).take(n as int));
            } else {
                assert(r@ =~= all);
            }
            assert forall|i: int, j: int| 0 <= i < j < r@.len() implies r@[i].usage_count >= r@[j].usage_count by {
                assert(r@[i] == all[i] && r@[j] == all[j]);
            }
        }
        r
    }

    /// The strategies that list `concept`, in the order first stored.
    pub fn find_strategies(&self, concept: &str) -> (r: Vec<StrategyEntry>)
        ensures
            strategy_views(r@) == strategies_for(self.strategy_list(), concept@),
    {
        let ghost ss = self.strategy_list();
        let mut r: Vec<StrategyEntry> = Vec::new();
        let mut i: usize = 0;
        while i < self.strategies.len()
            invariant
                i <= self.strategies.len(),
                ss == self.strategy_list(),
                strategy_views(r@) == strategies_for(ss.take(i as int), concept@),
            decreases self.strategies.len() - i,
        {
            let st = &self.strategies[i];
            assert(ss.take(i + 1).drop_last() =~= ss.take(i as int));
            assert(ss.take(i + 1).last() == st@);
            if holds_text(&st.applicable_concepts, concept) {
                let ghost before = strategy_views(r@);
                r.push(st.copy());
                assert(strategy_views(r@) =~= before.push(st@));
            }
            i += 1;
        }
        assert(ss.take(self.strategies.len() as int) =~= ss);
        r
    }

    /// The `n` most successful strategies (all of them when fewer), most
    /// successful first; equally successful ones keep the order they were
    /// first stored in.
    pub fn top_strategies(&self, n: usize) -> (r: Vec<StrategyEntry>)
        ensures
            strategy_views(r@) == first_n(most_successful_first(self.strategy_list()), n as int),
            forall|i: int, j: int| 0 <= i < j < r@.len() ==> r@[i].success_rate >= r@[j].success_rate,
    {
        let ghost ss = self.strategy_list();
        let mut keys: Vec<u64> = Vec::new();
        let mut k: usize = 0;
        while k < self.strategies.len()
            invariant
                k <= self.strategies.len(),
                ss == self.strategy_list(),
                keys@ == ss.take(k as int).map_values(|s: StrategyView| s.success_rate as u64),
            decreases self.strategies.len() - k,
        {
            keys.push(self.strategies[k].success_rate as u64);
            assert(keys@ =~= ss.take(k + 1).map_values(|s: StrategyView| s.success_rate as u64));
            k += 1;
        }
        assert(ss.take(self.strategies.len() as int) =~= ss);
        let dens = ones_of(keys.len());
        let order = rank_desc(&keys, &dens);
        let mut r: Vec<StrategyEntry> = Vec::new();
        let mut m: usize = 0;
        while m < order.len()
            invariant
                m <= order.len() == self.strategies.len() == keys.len(),
                ss == self.strategy_list(),
                order@ == rank_order(keys@, dens@),
                dens@ == ones(keys.len() as nat),
                forall|t: int| 0 <= t < order.len() ==> #[trigger] order@[t] < self.strategies.len(),
                strategy_views(r@) == order@.take(m as int).map_values(|x: usize| ss[x as int]),
                r@.len() == m,
                forall|t: int| 0 <= t < m ==> #[trigger] r@[t]@ == ss[order@[t] as int],
            decreases order.len() - m,
        {
            let ghost before = strategy_views(r@);
            let x = order[m];
            r.push(self.strategies[x].copy());
            proof {
                assert(ss[x as int] == self.strategies@[x as int]@);
                assert(order@.take(m + 1) =~= order@.take(m as int).push(x));
                assert(strategy_views(r@) =~= before.push(ss[x as int]));
                assert(order@.take(m + 1).map_values(|y: usize| ss[y as int]) =~= order@.take(m as int).map_values(
                    |y: usize| ss[y as int],
                ).push(ss[x as int]));
            }
            m += 1;
        }
        assert(order@.take(order.len() as int) =~= order@);
        proof {
            assert(keys@ =~= ss.map_values(|s: StrategyView| s.success_rate as u64));
            assert forall|i: int, j: int| 0 <= i < j < r@.len() implies r@[i].success_rate >= r@[j].success_rate by {
                assert(crate::order::ranks_above(keys@, dens@, order@[i], order@[j]));
                assert(r@[i]@ == ss[order@[i] as int]);
                assert(r@[j]@ == ss[order@[j] as int]);
                assert(dens@[order@[i] as int] == 1u32);
                assert(dens@[order@[j] as int] == 1u32);
            }
        }
        let ghost all = r@;
        r.truncate(n);
        proof {
            if n < all.len() {
                assert(r@ =~= all.take(n as int));
                assert(strategy_views(r@) =~= strategy_views(all).take(n as int));
            } else {
                assert(r@ =~= all);
            }
            assert forall|i: int, j: int| 0 <= i < j < r@.len() implies r@[i].success_rate >= r@[j].success_rate by {
                assert(r@[i] == all[i] && r@[j] == all[j]);
            }
        }
        r
    }

    /// The statistics' counters are in range (see `stats_ok`).
    pub open spec fn wf(&self) -> bool {
        stats_ok(self.stats_view())
    }

    /// A copy of the cross-student statistics.
    pub fn get_stats(&self) -> (r: CrossStats)
        ensures
            r@ == self.stats_view(),
    {
        self.stats.copy()
    }

    fn find_stats(&self, concept: &str) -> (r: Option<usize>)
        ensures
            r matches Some(i) ==> first_index(concept_names(self.stats_view().concepts), concept@) == Some(i as int)
                && i < self.stats.concept_stats@.len(),
            r is None ==> first_index(concept_names(self.stats_view().concepts), concept@) is None,
    {
        let ghost keys = concept_names(self.stats_view().concepts);
        let mut i: usize = 0;
        while i < self.stats.concept_stats.len()
            invariant
                i <= self.stats.concept_stats.len(),
                keys == concept_names(self.stats_view().concepts),
                forall|j: int| 0 <= j < i ==> keys[j] != concept@,
            decreases self.stats.concept_stats.len() - i,
        {
            if str_eq(self.stats.concept_stats[i].concept.as_str(), concept) {
                proof {
                    lemma_first_index(keys, concept@, i as int);
                }
                return Some(i);
            }
            i += 1;
        }
        proof {
            lemma_first_index(keys, concept@, i as int);
        }
        None
    }

    /// Records that a student met `concept` with `mastery` (in thousandths)
    /// and, maybe, an error: the concept's entry (added when new) counts one
    /// more exposure and its mastery; an error, if one came, is counted and
    /// the confusion rate becomes all errors over all exposures; one more
    /// session is counted, the time is stamped, and
    /// the ten hardest concepts are ranked again.
    pub fn record_exposure(&mut self, concept: &str, mastery: u32, error_desc: Option<&str>)
        requires
            old(self).wf(),
            old(self).stats_view().total_sessions < u32::MAX,
        ensures
            final(self).wf(),
            final(self).stats_view().concepts == with_exposure(old(self).stats_view().concepts, concept@, mastery,
                match error_desc {
                    Some(e) => Some(e@),
                    None => None,
                }),
            final(self).stats_view().total_sessions == old(self).stats_view().total_sessions + 1,
            final(self).stats_view().total_students == old(self).stats_view().total_students,
            final(self).stats_view().most_difficult == hardest(final(self).stats_view().concepts),
            final(self).knowledge() == old(self).knowledge(),
            final(self).faq_list() == old(self).faq_list(),
            final(self).strategy_list() == old(self).strategy_list(),
            final(self).path() == old(self).path(),
    {
        let ghost st0 = self.stats_view();
        let ghost err = match error_desc {
            Some(e) => Some(e@),
            None => None,
        };
        let (pos, c) = match self.find_stats(concept) {
            Some(i) => {
                assert(st0.concepts[i as int] == self.stats.concept_stats@[i as int]@);
                (Some(i), self.stats.concept_stats[i].copy())
            },
            None => {
                let fresh = ConceptStats {
                    concept: owned(concept),
                    total_exposures: 0,
                    mastery_total: 0,
                    common_errors: Vec::new(),
                    confusion_errors: 0,
                    confusion_base: 1,
                };
                assert(fresh@.errors =~= Seq::<(Seq<char>, u32)>::empty());
                assert(fresh@ == fresh_concept(concept@));
                (None, fresh)
            },
        };
        let ghost cv = c@;
        assert(cv.total_exposures <= st0.total_sessions);
        assert(error_sum(cv.errors) <= cv.total_exposures);
        assert(cv.mastery_total <= cv.total_exposures * 0xffff_ffffnat);
        proof {
            assert((cv.total_exposures + 1) * 0xffff_ffffnat <= 0x1_0000_0000 * 0xffff_ffffnat) by (nonlinear_arith)
                requires
                    cv.total_exposures + 1 <= 0x1_0000_0000,
            ;
        }
        let exposures = c.total_exposures + 1;
        let total = c.mastery_total + mastery as u64;
        let mut errors = copy_counts(&c.common_errors);
        let mut conf_errors = c.confusion_errors;
        let mut conf_base = c.confusion_base;
        match error_desc {
            Some(e) => {
                let ghost es = count_views(errors@);
                let found = find_error(&errors, e);
                match found {
                    Some(j) => {
                        proof {
                            lemma_count_within_sum(es, j as int);
                            lemma_sum_update(es, j as int, (e@, (es[j as int].1 + 1) as u32));
                        }
                        let n = errors[j].1 + 1;
                        errors.set(j, (owned(e), n));
                        assert(count_views(errors@) =~= es.update(j as int, (e@, n)));
                    },
                    None => {
                        errors.push((owned(e), 1));
                        assert(count_views(errors@) =~= es.push((e@, 1u32)));
                        assert(count_views(errors@).drop_last() =~= es);
                    },
                }
                let ghost es2 = count_views(errors@);
                assert(es2 == counted(es, e@));
                assert(error_sum(es2) <= exposures);
                let mut sum: u64 = 0;
                let mut t: usize = 0;
                while t < errors.len()
                    invariant
                        t <= errors.len(),
                        es2 == count_views(errors@),
                        sum == error_sum(es2.take(t as int)),
                        error_sum(es2) <= exposures,
                    decreases errors.len() - t,
                {
                    proof {
                        assert(es2.take(t + 1).drop_last() =~= es2.take(t as int));
                        lemma_prefix_sum_within(es2, t + 1);
                    }
                    sum = sum + errors[t].1 as u64;
                    t += 1;
                }
                assert(es2.take(errors.len() as int) =~= es2);
                conf_errors = sum as u32;
                conf_base = exposures;
            },
            None => {},
        }
        let updated = ConceptStats {
            concept: c.concept,
            total_exposures: exposures,
            mastery_total: total,
            common_errors: errors,
            confusion_errors: conf_errors,
            confusion_base: conf_base,
        };
        assert(updated@ == exposed(cv, mastery, err));
        let ghost uv = updated@;
        match pos {
            Some(i) => {
                self.stats.concept_stats.set(i, updated);
                assert(self.stats_view().concepts =~= st0.concepts.update(i as int, uv));
            },
            None => {
                self.stats.concept_stats.push(updated);
                assert(self.stats_view().concepts =~= st0.concepts.push(uv));
            },
        }
        assert(self.stats_view().concepts == with_exposure(st0.concepts, concept@, mastery, err));
        self.stats.total_sessions = self.stats.total_sessions + 1;
        self.stats.updated_at = now_micros();
        self.rank_hardest();
        proof {
            let cs = self.stats_view().concepts;
            assert forall|k: int| 0 <= k < cs.len() implies {
                let c = #[trigger] cs[k];
                &&& c.total_exposures <= self.stats_view().total_sessions
                &&& error_sum(c.errors) <= c.total_exposures
                &&& c.mastery_total <= c.total_exposures * 0xffff_ffffnat
                &&& c.confusion_base >= 1
            } by {
                let fresh_slot = match pos {
                    Some(i) => k == i as int,
                    None => k == st0.concepts.len(),
                };
                if fresh_slot {
                    assert(cs[k] == uv);
                } else {
                    assert(cs[k] == st0.concepts[k]);
                }
            }
        }
    }

    /// Ranks the concepts by confusion rate and keeps the ten hardest names.
    fn rank_hardest(&mut self)
        requires
            stats_ok(old(self).stats_view()) || forall|k: int| 0 <= k < old(self).stats_view().concepts.len()
                ==> (#[trigger] old(self).stats_view().concepts[k]).confusion_base >= 1,
        ensures
            final(self).stats_view().most_difficult == hardest(old(self).stats_view().concepts),
            final(self).stats_view().concepts == old(self).stats_view().concepts,
            final(self).stats_view().total_sessions == old(self).stats_view().total_sessions,
            final(self).stats_view().total_students == old(self).stats_view().total_students,
            final(self).knowledge() == old(self).knowledge(),
            final(self).faq_list() == old(self).faq_list(),
            final(self).strategy_list() == old(self).strategy_list(),
            final(self).path() == old(self).path(),
    {
        let ghost cs = self.stats_view().concepts;
        let mut nums: Vec<u64> = Vec::new();
        let mut dens: Vec<u32> = Vec::new();
        let mut i: usize = 0;
        while i < self.stats.concept_stats.len()
            invariant
                i <= self.stats.concept_stats.len(),
                cs == self.stats_view().concepts,
                nums@ == cs.take(i as int).map_values(|c: ConceptView| c.confusion_errors as u64),
                dens@ == cs.take(i as int).map_values(|c: ConceptView| c.confusion_base),
            decreases self.stats.concept_stats.len() - i,
        {
            assert(cs[i as int] == self.stats.concept_stats@[i as int]@);
            nums.push(self.stats.concept_stats[i].confusion_errors as u64);
            dens.push(self.stats.concept_stats[i].confusion_base);
            assert(nums@ =~= cs.take(i + 1).map_values(|c: ConceptView| c.confusion_errors as u64));
            assert(dens@ =~= cs.take(i + 1).map_values(|c: ConceptView| c.confusion_base));
            i += 1;
        }
        assert(cs.take(self.stats.concept_stats.len() as int) =~= cs);
        proof {
            assert forall|k: int| 0 <= k < dens.len() implies #[trigger] dens@[k] > 0 by {
                assert(dens@[k] == cs[k].confusion_base);
            }
        }
        let order = rank_desc(&nums, &dens);
        let ghost names = order@.map_values(|x: usize| cs[x as int].concept);
        let mut top: Vec<String> = Vec::new();
        let mut m: usize = 0;
        while m < order.len() && m < 10
            invariant
                m <= order.len() == self.stats.concept_stats.len(),
                m <= 10,
                cs == self.stats_view().concepts,
                names == order@.map_values(|x: usize| cs[x as int].concept),
                forall|t: int| 0 <= t < order.len() ==> #[trigger] order@[t] < self.stats.concept_stats.len(),
                views(top@) == names.take(m as int),
            decreases order.len() - m,
        {
            let x = order[m];
            let ghost before = views(top@);
            assert(cs[x as int] == self.stats.concept_stats@[x as int]@);
            top.push(self.stats.concept_stats[x].concept.clone());
            assert(views(top@) =~= before.push(cs[x as int].concept));
            assert(names.take(m + 1) =~= names.take(m as int).push(names[m as int]));
            m += 1;
        }
        proof {
            if order.len() < 10 {
                assert(names.take(m as int) =~= names);
            }
        }
        self.stats.most_difficult = top;
    }

    /// The shared context for a prompt: the lines of `shared_parts` joined
    /// by newlines (empty when there are none).
    pub fn build_shared_context(&self, concept_hint: Option<&str>) -> (r: String)
        ensures
            r@ == join(shared_parts(self.knowledge(), self.faq_list(), self.stats_view().most_difficult,
                match concept_hint {
                    Some(h) => Some(h@),
                    None => None,
                }), "\n"@),
    {
        let ghost hint = match concept_hint {
            Some(h) => Some(h@),
            None => None::<Seq<char>>,
        };
        let mut parts: Vec<String> = Vec::new();
        let ghost notes = match hint {
            Some(h) => {
                let found = newest_first(notes_mentioning(self.knowledge(), lowercase(h)));
                if found.len() > 0 {
                    seq!["【共享知识库】"@] + note_lines(found) + seq![Seq::<char>::empty()]
                } else {
                    Seq::empty()
                }
            },
            None => Seq::empty(),
        };
        match concept_hint {
            Some(h) => {
                let ks = self.search_knowledge(h);
                if ks.len() > 0 {
                    parts.push(owned("【共享知识库】"));
                    let ghost found = knowledge_views(ks@);
                    let mut i: usize = 0;
                    while i < ks.len()
                        invariant
                            i <= ks.len(),
                            found == knowledge_views(ks@),
                            views(parts@) == seq!["【共享知识库】"@] + note_lines(found.take(i as int)),
                        decreases ks.len() - i,
                    {
                        let n = &ks[i];
                        let ghost before = views(parts@);
                        assert(found.take(i + 1).drop_last() =~= found.take(i as int));
                        assert(found.take(i + 1).last() == n@);
                        let mut line = owned("• ");
                        push_str(&mut line, n.concept.as_str());
                        push_str(&mut line, ": ");
                        push_str(&mut line, n.description.as_str());
                        parts.push(line);
                        if n.typical_misconceptions.len() > 0 {
                            let mut m = owned("  常见误解: ");
                            push_str(&mut m, join_strings(&n.typical_misconceptions, "、").as_str());
                            parts.push(m);
                        }
                        assert(views(parts@) =~= before + note_parts(n@));
                        i += 1;
                    }
                    assert(found.take(ks.len() as int) =~= found);
                    parts.push(String::new());
                    assert(views(parts@) =~= notes);
                } else {
                    assert(views(parts@) =~= notes);
                }
            },
            None => {
                assert(views(parts@) =~= notes);
            },
        }
        let ghost faqs = match hint {
            Some(h) => {
                let found = most_effective_first(faqs_mentioning(self.faq_list(), lowercase(h)));
                if found.len() > 0 {
                    seq!["【高频问答】"@] + question_lines(first_n(found, 3)) + seq![Seq::<char>::empty()]
                } else {
                    Seq::empty()
                }
            },
            None => Seq::empty(),
        };
        let ghost mid = views(parts@);
        match concept_hint {
            Some(h) => {
                let fs = self.search_faqs(h);
                if fs.len() > 0 {
                    parts.push(owned("【高频问答】"));
                    let ghost found = faq_views(fs@);
                    let shown = if fs.len() < 3 { fs.len() } else { 3 };
                    let mut i: usize = 0;
                    while i < shown
                        invariant
                            i <= shown <= fs.len(),
                            shown == (if fs.len() < 3 { fs.len() } else { 3 }),
                            found == faq_views(fs@),
                            views(parts@) == mid + seq!["【高频问答】"@] + question_lines(found.take(i as int)),
                        decreases shown - i,
                    {
                        let ghost before = views(parts@);
                        assert(found[i as int] == fs@[i as int]@);
                        parts.push(concat("  Q: ", fs[i].question.as_str()));
                        assert(question_lines(found.take(i + 1)) =~= question_lines(found.take(i as int)).push(
                            "  Q: "@ + found[i as int].question,
                        ));
                        assert(views(parts@) =~= before.push("  Q: "@ + found[i as int].question));
                        i += 1;
                    }
                    assert(found.take(shown as int) =~= first_n(found, 3));
                    let ghost qs = question_lines(first_n(found, 3));
                    assert(views(parts@) == mid + seq!["【高频问答】"@] + qs);
                    parts.push(String::new());
                    assert(views(parts@) =~= mid + seq!["【高频问答】"@] + qs + seq![Seq::<char>::empty()]);
                    assert(found == most_effective_first(faqs_mentioning(self.faq_list(), lowercase(h@))));
                    assert(faqs == seq!["【高频问答】"@] + qs + seq![Seq::<char>::empty()]);
                    assert(views(parts@) =~= mid + faqs);
                } else {
                    assert(views(parts@) =~= mid + faqs);
                }
            },
            None => {
                assert(views(parts@) =~= mid + faqs);
            },
        }
        let ghost mid2 = views(parts@);
        let hard = &self.stats.most_difficult;
        if hard.len() > 0 {
            let take = if hard.len() < 5 { hard.len() } else { 5 };
            let mut top: Vec<String> = Vec::new();
            let mut i: usize = 0;
            while i < take
                invariant
                    i <= take <= hard.len(),
                    views(top@) == views(hard@).take(i as int),
                decreases take - i,
            {
                let ghost before = views(top@);
                top.push(hard[i].clone());
                assert(views(top@) =~= before.push(hard@[i as int]@));
                assert(views(hard@).take(i + 1) =~= views(hard@).take(i as int).push(hard@[i as int]@));
                i += 1;
            }
            assert(views(hard@).take(take as int) =~= first_n(views(hard@), 5));
            let mut line = owned("【全局难点】最近学生普遍在以下概念遇到困难: ");
            push_str(&mut line, join_strings(&top, "、").as_str());
            parts.push(line);
            parts.push(String::new());
        }
        assert(views(parts@) =~= shared_parts(self.knowledge(), self.faq_list(), self.stats_view().most_difficult,
            hint));
        join_strings(&parts, "\n")
    }
}

proof fn lemma_first_index_found(keys: Seq<Seq<char>>, k: Seq<char>)
    ensures
        match first_index(keys, k) {
            Some(i) => 0 <= i < keys.len() && keys[i] == k && forall|j: int| 0 <= j < i ==> keys[j] != k,
            None => forall|j: int| 0 <= j < keys.len() ==> keys[j] != k,
        },
    decreases keys.len(),
{
    if keys.len() > 0 {
        lemma_first_index_found(keys.drop_first(), k);
        assert forall|j: int| 1 <= j < keys.len() implies keys[j] == keys.drop_first()[j - 1] by {}
    }
}

/// Storing a note and then reading its concept gives that note back: after
/// an upsert, the first note under the note's concept is the note itself,
/// and every other note is where it was.
pub proof fn law_upsert_then_get(ns: Seq<KnowledgeView>, n: KnowledgeView)
    ensures
        ({
            let after = upserted(ns, concepts_of(ns), n.concept, n);
            &&& first_index(concepts_of(after), n.concept) matches Some(i) && after[i] == n
            &&& forall|c: Seq<char>| c != n.concept ==> first_index(concepts_of(after), c) == first_index(
                concepts_of(ns),
                c,
            )
        }),
{
    let keys = concepts_of(ns);
    let after = upserted(ns, keys, n.concept, n);
    lemma_first_index_found(keys, n.concept);
    match first_index(keys, n.concept) {
        Some(i) => {
            assert(concepts_of(after) =~= keys.update(i, n.concept));
            assert forall|j: int| 0 <= j <= i implies (concepts_of(after)[j] == n.concept) == (j == i) by {}
            lemma_first_index(concepts_of(after), n.concept, i);
            assert forall|c: Seq<char>| c != n.concept implies first_index(concepts_of(after), c) == first_index(keys, c) by {
                lemma_first_index_found(keys, c);
                match first_index(keys, c) {
                    Some(m) => {
                        assert(m != i);
                        lemma_first_index(concepts_of(after), c, m);
                    },
                    None => {
                        lemma_first_index(concepts_of(after), c, keys.len() as int);
                    },
                }
            }
        },
        None => {
            assert(concepts_of(after) =~= keys.push(n.concept));
            lemma_first_index(concepts_of(after), n.concept, keys.len() as int);
            assert forall|c: Seq<char>| c != n.concept implies first_index(concepts_of(after), c) == first_index(keys, c) by {
                lemma_first_index_found(keys, c);
                match first_index(keys, c) {
                    Some(m) => {
                        lemma_first_index(concepts_of(after), c, m);
                    },
                    None => {
                        lemma_first_index(concepts_of(after), c, after.len() as int);
                    },
                }
            }
        },
    }
}

impl Default for SharedMemory {
    /// An empty store, as `new` makes it.
    fn default() -> (r: SharedMemory)
        ensures
            r.knowledge() == Seq::<KnowledgeView>::empty(),
            r.faq_list() == Seq::<FaqView>::empty(),
            r.strategy_list() == Seq::<StrategyView>::empty(),
            r.stats_view().total_sessions == 0,
            r.stats_view().concepts == Seq::<ConceptView>::empty(),
            r.stats_view().most_difficult == Seq::<Seq<char>>::empty(),
            r.wf(),
    {
        SharedMemory::new()
    }
}

} // verus!
