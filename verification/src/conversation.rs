//! Conversation history: the turns of every session, and the context a new
//! turn is given (recent turns, concepts discussed, a short summary).
//! Times are microseconds since the Unix epoch.

use vstd::prelude::*;

use crate::text::{
    chars_of, clone_opt, concat, contains, dec, decimal, join, lowercase, owned, push_str, split_words,
    str_contains, str_eq, string_from_chars, to_lowercase, views, words,
};
use crate::platform::now_micros;

verus! {

/// Who spoke a turn.
#[derive(Debug, Clone, Copy, PartialEq, Eq, Structural)]
pub enum TurnRole {
    Student,
    Tutor,
    System,
}

/// One turn of a conversation.
#[derive(Debug)]
pub struct Turn {
    pub role: TurnRole,
    pub content: String,
    pub timestamp: i64,
    /// Concept the turn is about
    pub concept: Option<String>,
    pub metadata: Vec<(String, String)>,
}

/// The mathematical content of a `Turn`.
pub struct TurnView {
    pub role: TurnRole,
    pub content: Seq<char>,
    pub timestamp: i64,
    pub concept: Option<Seq<char>>,
    pub metadata: Seq<(Seq<char>, Seq<char>)>,
}

impl View for Turn {
    type V = TurnView;

    open spec fn view(&self) -> TurnView {
        TurnView {
            role: self.role,
            content: self.content@,
            timestamp: self.timestamp,
            concept: match self.concept {
                Some(c) => Some(c@),
                None => None,
            },
            metadata: self.metadata@.map_values(|p: (String, String)| (p.0@, p.1@)),
        }
    }
}

impl Turn {
    /// A turn said by the student now.
    pub fn student(content: &str) -> (r: Turn)
        ensures
            r@.role == TurnRole::Student,
            r@.content == content@,
            r@.concept is None,
            r@.metadata.len() == 0,
    {
        Turn { role: TurnRole::Student, content: owned(content), timestamp: now_micros(), concept: None, metadata: Vec::new() }
    }

    /// A turn said by the tutor now.
    pub fn tutor(content: &str) -> (r: Turn)
        ensures
            r@.role == TurnRole::Tutor,
            r@.content == content@,
            r@.concept is None,
            r@.metadata.len() == 0,
    {
        Turn { role: TurnRole::Tutor, content: owned(content), timestamp: now_micros(), concept: None, metadata: Vec::new() }
    }

    /// The turn tagged with a concept.
    pub fn with_concept(self, concept: &str) -> (r: Turn)
        ensures
            r@ == (TurnView { concept: Some(concept@), ..self@ }),
    {
        let mut t = self;
        t.concept = Some(owned(concept));
        t
    }

    /// A copy holding the same values.
    pub fn copy(&self) -> (r: Turn)
        ensures
            r@ == self@,
    {
        let ghost want = self@.metadata;
        let mut meta: Vec<(String, String)> = Vec::new();
        let mut i: usize = 0;
        while i < self.metadata.len()
            invariant
                i <= self.metadata.len(),
                want == self@.metadata,
                meta@.map_values(|p: (String, String)| (p.0@, p.1@)) == want.take(i as int),
            decreases self.metadata.len() - i,
        {
            let ghost before = meta@.map_values(|p: (String, String)| (p.0@, p.1@));
            meta.push((self.metadata[i].0.clone(), self.metadata[i].1.clone()));
            assert(meta@.map_values(|p: (String, String)| (p.0@, p.1@)) =~= before.push(want[i as int]));
            assert(want.take(i + 1) =~= want.take(i as int).push(want[i as int]));
            i = i + 1;
        }
        assert(want.take(self.metadata.len() as int) =~= want);
        Turn {
            role: self.role,
            content: self.content.clone(),
            timestamp: self.timestamp,
            concept: clone_opt(&self.concept),
            metadata: meta,
        }
    }
}

/// The views of a list of turns.
pub open spec fn turn_views(ts: Seq<Turn>) -> Seq<TurnView> {
    ts.map_values(|t: Turn| t@)
}

/// The last `n` turns (all of them when there are fewer).
pub open spec fn recent(ts: Seq<TurnView>, n: int) -> Seq<TurnView> {
    if n < ts.len() {
        ts.skip(ts.len() - n)
    } else {
        ts
    }
}

/// The concepts of the turns, each once, in the order first discussed.
pub open spec fn concepts_of(ts: Seq<TurnView>) -> Seq<Seq<char>>
    decreases ts.len(),
{
    if ts.len() == 0 {
        Seq::empty()
    } else {
        let r = concepts_of(ts.drop_last());
        match ts.last().concept {
            Some(c) => if r.contains(c) {
                r
            } else {
                r.push(c)
            },
            None => r,
        }
    }
}

/// The first thing the student said, if anything.
pub open spec fn first_student(ts: Seq<TurnView>) -> Option<Seq<char>>
    decreases ts.len(),
{
    if ts.len() == 0 {
        None
    } else if ts[0].role == TurnRole::Student {
        Some(ts[0].content)
    } else {
        first_student(ts.drop_first())
    }
}

/// The one-line summary of a non-empty session.
pub open spec fn summary_of(ts: Seq<TurnView>) -> Option<Seq<char>> {
    if ts.len() == 0 {
        None
    } else {
        Some(
            "已进行"@ + dec(ts.len()) + "轮对话，讨论了"@ + dec(concepts_of(ts).len()) + "个概念。学生主要关注："@
                + match first_student(ts) {
                Some(c) => c,
                None => "未知"@,
            },
        )
    }
}

/// Context for a new turn of a session.
#[derive(Debug)]
pub struct SessionContext {
    pub session_id: String,
    pub recent_turns: Vec<Turn>,
    pub concepts_discussed: Vec<String>,
    pub total_turns: usize,
    pub summary: Option<String>,
    pub first_seen: Option<i64>,
    pub last_active: Option<i64>,
}

/// The label a turn's speaker gets in a prompt.
pub open spec fn role_label(r: TurnRole) -> Seq<char> {
    match r {
        TurnRole::Student => "学生"@,
        TurnRole::Tutor => "AI"@,
        TurnRole::System => "系统"@,
    }
}

/// The prompt lines of the recent turns.
pub open spec fn turn_lines(ts: Seq<TurnView>) -> Seq<char>
    decreases ts.len(),
{
    if ts.len() == 0 {
        Seq::empty()
    } else {
        turn_lines(ts.drop_last()) + "["@ + role_label(ts.last().role) + "]: "@ + ts.last().content + "\n"@
    }
}

/// The history block of a session's prompt (empty for a new session): the
/// summary, the concepts discussed, and the last five turns.
pub open spec fn context_prompt(ts: Seq<TurnView>) -> Seq<char> {
    if ts.len() == 0 {
        Seq::empty()
    } else {
        let cs = concepts_of(ts);
        "[历史对话上下文]\n"@ + "📋 "@ + summary_of(ts)->0 + "\n\n"@ + (if cs.len() > 0 {
            "已讨论概念: "@ + join(cs, "、"@) + "\n\n"@
        } else {
            Seq::empty()
        }) + "最近对话:\n"@ + turn_lines(recent(ts, 5)) + "\n请基于以上历史上下文继续对话。不要重复已讨论过的内容。\n"@
    }
}

/// Whether a turn holds one of the query's words (compared lowercased).
pub open spec fn turn_matches(t: TurnView, kws: Seq<Seq<char>>) -> bool {
    exists|i: int| 0 <= i < kws.len() && contains(lowercase(t.content), lowercase(#[trigger] kws[i]))
}

/// The turns that hold one of the query's words, in order.
pub open spec fn matching_turns(ts: Seq<TurnView>, kws: Seq<Seq<char>>) -> Seq<TurnView>
    decreases ts.len(),
{
    if ts.len() == 0 {
        Seq::empty()
    } else if turn_matches(ts.last(), kws) {
        matching_turns(ts.drop_last(), kws).push(ts.last())
    } else {
        matching_turns(ts.drop_last(), kws)
    }
}

/// Index of the session `id` in a list of sessions.
pub open spec fn session_index(ss: Seq<(String, Vec<Turn>)>, id: Seq<char>) -> Option<int> {
    if exists|i: int| 0 <= i < ss.len() && (#[trigger] ss[i]).0@ == id {
        Some(choose|i: int| 0 <= i < ss.len() && (#[trigger] ss[i]).0@ == id)
    } else {
        None
    }
}

/// Every session's turns, in the order the sessions started.
pub struct ConversationStore {
    sessions: Vec<(String, Vec<Turn>)>,
}

impl ConversationStore {
    /// The turns of a session (none for an unknown session).
    pub closed spec fn turns_of(&self, id: Seq<char>) -> Seq<TurnView> {
        match session_index(self.sessions@, id) {
            Some(i) => turn_views(self.sessions@[i].1@),
            None => Seq::empty(),
        }
    }

    /// The session ids, in the order the sessions started.
    pub closed spec fn ids(&self) -> Seq<Seq<char>> {
        self.sessions@.map_values(|s: (String, Vec<Turn>)| s.0@)
    }

    /// The store's invariant: each session is listed once.
    pub closed spec fn wf(&self) -> bool {
        forall|i: int, j: int|
            0 <= i < j < self.sessions@.len() ==> (#[trigger] self.sessions@[i]).0@ != (
            #[trigger] self.sessions@[j]).0@
    }

    /// An empty store.
    pub fn new() -> (r: ConversationStore)
        ensures
            r.wf(),
            r.ids() == Seq::<Seq<char>>::empty(),
            forall|id: Seq<char>| r.turns_of(id) == Seq::<TurnView>::empty(),
    {
        let r = ConversationStore { sessions: Vec::new() };
        assert(r.ids() =~= Seq::<Seq<char>>::empty());
        r
    }

    fn find(&self, id: &str) -> (r: Option<usize>)
        requires
            self.wf(),
        ensures
            match r {
                Some(i) => i < self.sessions@.len() && session_index(self.sessions@, id@) == Some(i as int),
                None => session_index(self.sessions@, id@) is None,
            },
    {
        let mut i: usize = 0;
        while i < self.sessions.len()
            invariant
                i <= self.sessions.len(),
                self.wf(),
                forall|j: int| 0 <= j < i ==> (#[trigger] self.sessions@[j]).0@ != id@,
            decreases self.sessions.len() - i,
        {
            if str_eq(self.sessions[i].0.as_str(), id) {
                proof {
                    let c = choose|j: int| 0 <= j < self.sessions@.len() && (#[trigger] self.sessions@[j]).0@ == id@;
                    if c != i {
                        if c < i {
                            assert(self.sessions@[c].0@ != self.sessions@[i as int].0@);
                        } else {
                            assert(self.sessions@[i as int].0@ != self.sessions@[c].0@);
                        }
                    }
                }
                return Some(i);
            }
            i = i + 1;
        }
        None
    }

    /// Records a turn at the end of its session (starting the session on
    /// its first turn). Returns whether the store is due to be saved: every
    /// tenth turn of a session.
    pub fn record(&mut self, session_id: &str, turn: Turn) -> (save_due: bool)
        requires
            old(self).wf(),
        ensures
            final(self).wf(),
            final(self).turns_of(session_id@) == old(self).turns_of(session_id@).push(turn@),
            forall|id: Seq<char>| id != session_id@ ==> final(self).turns_of(id) == old(self).turns_of(id),
            final(self).ids() == if old(self).ids().contains(session_id@) {
                old(self).ids()
            } else {
                old(self).ids().push(session_id@)
            },
            save_due == ((old(self).turns_of(session_id@).len() + 1) % 10 == 0),
    {
        let ghost tv = turn@;
        match self.find(session_id) {
            Some(i) => {
                let mut entry = self.sessions.remove(i);
                entry.1.push(turn);
                let n = entry.1.len();
                let ghost e = entry;
                self.sessions.insert(i, entry);
                proof {
                    let o = old(self).sessions@;
                    assert(self.sessions@ =~= o.update(i as int, e));
                    assert(turn_views(e.1@) =~= turn_views(o[i as int].1@).push(tv));
                    assert forall|a: int, b: int| 0 <= a < b < self.sessions@.len() implies (#[trigger] self.sessions@[a]).0@
                        != (#[trigger] self.sessions@[b]).0@ by {
                        assert(o[a].0@ != o[b].0@);
                    }
                    assert(o[i as int].0@ == session_id@);
                    assert(self.sessions@[i as int].0@ == session_id@);
                    assert(session_index(self.sessions@, session_id@) == Some(i as int)) by {
                        let c = choose|j: int| 0 <= j < self.sessions@.len() && (#[trigger] self.sessions@[j]).0@ == session_id@;
                        if c != i {
                            if c < i {
                                assert(self.sessions@[c].0@ != self.sessions@[i as int].0@);
                            } else {
                                assert(self.sessions@[i as int].0@ != self.sessions@[c].0@);
                            }
                        }
                    }
                    assert forall|id: Seq<char>| id != session_id@ implies self.turns_of(id) == old(self).turns_of(id) by {
                        if exists|j: int| 0 <= j < o.len() && (#[trigger] o[j]).0@ == id {
                            let c = choose|j: int| 0 <= j < o.len() && (#[trigger] o[j]).0@ == id;
                            assert(self.sessions@[c].0@ == id);
                            let d = choose|j: int| 0 <= j < self.sessions@.len() && (#[trigger] self.sessions@[j]).0@ == id;
                            assert(o[d].0@ == id);
                            if c != d {
                                if c < d {
                                    assert(o[c].0@ != o[d].0@);
                                } else {
                                    assert(o[d].0@ != o[c].0@);
                                }
                            }
                        }
                        if exists|j: int| 0 <= j < self.sessions@.len() && (#[trigger] self.sessions@[j]).0@ == id {
                            let d = choose|j: int| 0 <= j < self.sessions@.len() && (#[trigger] self.sessions@[j]).0@ == id;
                            assert(o[d].0@ == id);
                        }
                    }
                    assert(self.ids() =~= old(self).ids());
                    assert(old(self).ids()[i as int] == session_id@);
                }
                n % 10 == 0
            },
            None => {
                let mut ts: Vec<Turn> = Vec::new();
                ts.push(turn);
                self.sessions.push((owned(session_id), ts));
                proof {
                    let o = old(self).sessions@;
                    let e = self.sessions@.last();
                    assert(self.sessions@ =~= o.push(e));
                    assert(turn_views(e.1@) =~= seq![tv]);
                    assert forall|a: int, b: int| 0 <= a < b < self.sessions@.len() implies (#[trigger] self.sessions@[a]).0@
                        != (#[trigger] self.sessions@[b]).0@ by {
                        if b == o.len() {
                            assert(o[a].0@ != session_id@);
                        } else {
                            assert(o[a].0@ != o[b].0@);
                        }
                    }
                    assert(session_index(self.sessions@, session_id@) == Some(o.len() as int)) by {
                        let c = choose|j: int| 0 <= j < self.sessions@.len() && (#[trigger] self.sessions@[j]).0@ == session_id@;
                        if c < o.len() {
                            assert(o[c].0@ == session_id@);
                        }
                    }
                    assert(old(self).turns_of(session_id@) =~= Seq::<TurnView>::empty());
                    assert(Seq::<TurnView>::empty().push(tv) =~= seq![tv]);
                    assert forall|id: Seq<char>| id != session_id@ implies self.turns_of(id) == old(self).turns_of(id) by {
                        if exists|j: int| 0 <= j < o.len() && (#[trigger] o[j]).0@ == id {
                            let c = choose|j: int| 0 <= j < o.len() && (#[trigger] o[j]).0@ == id;
                            assert(self.sessions@[c].0@ == id);
                            let d = choose|j: int| 0 <= j < self.sessions@.len() && (#[trigger] self.sessions@[j]).0@ == id;
                            assert(d != o.len());
                            assert(o[d].0@ == id);
                            if c != d {
                                if c < d {
                                    assert(o[c].0@ != o[d].0@);
                                } else {
                                    assert(o[d].0@ != o[c].0@);
                                }
                            }
                        }
                        if exists|j: int| 0 <= j < self.sessions@.len() && (#[trigger] self.sessions@[j]).0@ == id {
                            let d = choose|j: int| 0 <= j < self.sessions@.len() && (#[trigger] self.sessions@[j]).0@ == id;
                            assert(d != o.len());
                            assert(o[d].0@ == id);
                        }
                    }
                    assert(self.ids() =~= old(self).ids().push(session_id@));
                    assert(!old(self).ids().contains(session_id@)) by {
                        if old(self).ids().contains(session_id@) {
                            let k = choose|k: int| 0 <= k < old(self).ids().len() && old(self).ids()[k] == session_id@;
                            assert(o[k].0@ == session_id@);
                        }
                    }
                }
                false
            },
        }
    }

    /// Copies of a session's turns.
    pub fn get_session(&self, session_id: &str) -> (r: Vec<Turn>)
        requires
            self.wf(),
        ensures
            turn_views(r@) == self.turns_of(session_id@),
    {
        match self.find(session_id) {
            Some(i) => copy_turns(&self.sessions[i].1, 0),
            None => {
                let v: Vec<Turn> = Vec::new();
                assert(turn_views(v@) =~= Seq::<TurnView>::empty());
                v
            },
        }
    }

    /// The last `n` turns of a session.
    pub fn get_recent(&self, session_id: &str, n: usize) -> (r: Vec<Turn>)
        requires
            self.wf(),
        ensures
            turn_views(r@) == recent(self.turns_of(session_id@), n as int),
    {
        match self.find(session_id) {
            Some(i) => {
                let len = self.sessions[i].1.len();
                let from = if n < len {
                    len - n
                } else {
                    0
                };
                let r = copy_turns(&self.sessions[i].1, from);
                proof {
                    let all = turn_views(self.sessions@[i as int].1@);
                    if n >= len {
                        assert(all.skip(0) =~= all);
                    }
                }
                r
            },
            None => {
                let v: Vec<Turn> = Vec::new();
                assert(turn_views(v@) =~= Seq::<TurnView>::empty());
                v
            },
        }
    }

    /// Number of turns of a session.
    pub fn count(&self, session_id: &str) -> (r: usize)
        requires
            self.wf(),
        ensures
            r == self.turns_of(session_id@).len(),
    {
        match self.find(session_id) {
            Some(i) => self.sessions[i].1.len(),
            None => 0,
        }
    }

    /// The session ids, in the order the sessions started.
    pub fn list_sessions(&self) -> (r: Vec<String>)
        ensures
            views(r@) == self.ids(),
    {
        let mut out: Vec<String> = Vec::new();
        let mut i: usize = 0;
        while i < self.sessions.len()
            invariant
                i <= self.sessions.len(),
                views(out@) == self.ids().take(i as int),
            decreases self.sessions.len() - i,
        {
            let ghost before = views(out@);
            out.push(self.sessions[i].0.clone());
            assert(views(out@) =~= before.push(self.sessions@[i as int].0@));
            assert(self.ids().take(i + 1) =~= self.ids().take(i as int).push(self.sessions@[i as int].0@));
            i = i + 1;
        }
        assert(self.ids().take(self.sessions.len() as int) =~= self.ids());
        out
    }

    /// The turns of a session that hold a word of `query`.
    pub fn search_session(&self, session_id: &str, query: &str) -> (r: Vec<Turn>)
        requires
            self.wf(),
        ensures
            turn_views(r@) == matching_turns(self.turns_of(session_id@), words(query@)),
    {
        let ts = self.get_session(session_id);
        filter_matching(&ts, query)
    }

    /// Searches every session for the words of `query`: the sessions with a
    /// matching turn, best share of matching turns first.
    pub fn search_all(&self, query: &str) -> (r: Vec<SearchResult>)
        requires
            self.wf(),
        ensures
            hit_views(r@) == ranked(hits_among(*self, self.ids(), words(query@))),
            best_first(hit_views(r@)),
    {
        proof {
            lemma_hits_counted(*self, self.ids(), words(query@));
            law_ranked_best_first(hits_among(*self, self.ids(), words(query@)));
        }
        let ghost kws = words(query@);
        let mut hits: Vec<SearchResult> = Vec::new();
        let mut i: usize = 0;
        while i < self.sessions.len()
            invariant
                i <= self.sessions.len(),
                self.wf(),
                kws == words(query@),
                hit_views(hits@) == hits_among(*self, self.ids().take(i as int), kws),
            decreases self.sessions.len() - i,
        {
            let ts = &self.sessions[i].1;
            let m = filter_matching(ts, query);
            proof {
                self.lemma_turns_at(i as int);
                let ids = self.ids().take(i + 1);
                assert(ids.drop_last() =~= self.ids().take(i as int));
                assert(ids.last() == self.sessions@[i as int].0@);
            }
            if m.len() > 0 {
                let ghost before = hit_views(hits@);
                let matched = m.len();
                hits.push(SearchResult { session_id: self.sessions[i].0.clone(), turns: m, matched, total: ts.len() });
                proof {
                    assert(hit_views(hits@) =~= before.push(hits@.last()@));
                }
            }
            i = i + 1;
        }
        proof {
            assert(self.ids().take(self.sessions.len() as int) =~= self.ids());
        }
        rank_results(hits)
    }

    proof fn lemma_turns_at(&self, i: int)
        requires
            self.wf(),
            0 <= i < self.sessions@.len(),
        ensures
            self.turns_of(self.sessions@[i].0@) == turn_views(self.sessions@[i].1@),
            self.ids()[i] == self.sessions@[i].0@,
    {
        let id = self.sessions@[i].0@;
        assert(self.sessions@[i].0@ == id);
        let c = choose|j: int| 0 <= j < self.sessions@.len() && (#[trigger] self.sessions@[j]).0@ == id;
        if c != i {
            if c < i {
                assert(self.sessions@[c].0@ != self.sessions@[i].0@);
            } else {
                assert(self.sessions@[i].0@ != self.sessions@[c].0@);
            }
        }
    }
}

/// A session whose turns match a search: its matching turns, how many of
/// its turns match and how many it has. The session's score is the share
/// `matched / total`.
#[derive(Debug)]
pub struct SearchResult {
    pub session_id: String,
    pub turns: Vec<Turn>,
    pub matched: usize,
    pub total: usize,
}

/// The mathematical content of a `SearchResult`.
pub struct HitView {
    pub id: Seq<char>,
    pub turns: Seq<TurnView>,
    pub matched: nat,
    pub total: nat,
}

impl View for SearchResult {
    type V = HitView;

    open spec fn view(&self) -> HitView {
        HitView {
            id: self.session_id@,
            turns: turn_views(self.turns@),
            matched: self.matched as nat,
            total: self.total as nat,
        }
    }
}

/// The views of a list of search results.
pub open spec fn hit_views(rs: Seq<SearchResult>) -> Seq<HitView> {
    rs.map_values(|r: SearchResult| r@)
}

/// What searching session `id`, with turns `ts`, gives.
pub open spec fn hit_of(id: Seq<char>, ts: Seq<TurnView>, kws: Seq<Seq<char>>) -> HitView {
    let m = matching_turns(ts, kws);
    HitView { id: id, turns: m, matched: m.len(), total: ts.len() }
}

/// The sessions among `ids` with at least one matching turn, in order.
pub open spec fn hits_among(s: ConversationStore, ids: Seq<Seq<char>>, kws: Seq<Seq<char>>) -> Seq<HitView>
    decreases ids.len(),
{
    if ids.len() == 0 {
        Seq::empty()
    } else {
        let rest = hits_among(s, ids.drop_last(), kws);
        let h = hit_of(ids.last(), s.turns_of(ids.last()), kws);
        if h.matched > 0 {
            rest.push(h)
        } else {
            rest
        }
    }
}

/// `a` scores at least as high as `b` (the shares compared crosswise).
pub open spec fn score_ge(a: HitView, b: HitView) -> bool {
    a.matched * b.total >= b.matched * a.total
}

/// `h` placed after the last result, counted from the end, that scores at
/// least as high.
pub open spec fn insert_ranked(r: Seq<HitView>, h: HitView) -> Seq<HitView>
    decreases r.len(),
{
    if r.len() == 0 {
        seq![h]
    } else if score_ge(r.last(), h) {
        r.push(h)
    } else {
        insert_ranked(r.drop_last(), h).push(r.last())
    }
}

/// The results ordered by score, highest first; equal scores keep their
/// order.
pub open spec fn ranked(hs: Seq<HitView>) -> Seq<HitView>
    decreases hs.len(),
{
    if hs.len() == 0 {
        Seq::empty()
    } else {
        insert_ranked(ranked(hs.drop_last()), hs.last())
    }
}

proof fn lemma_insert_at(r: Seq<HitView>, h: HitView, j: int)
    requires
        0 <= j <= r.len(),
        j == 0 || score_ge(r[j - 1], h),
        forall|m: int| j <= m < r.len() ==> !score_ge(#[trigger] r[m], h),
    ensures
        insert_ranked(r, h) == r.insert(j, h),
    decreases r.len(),
{
    if r.len() == 0 {
        assert(r.insert(j, h) =~= seq![h]);
    } else if j == r.len() {
        assert(r.insert(j, h) =~= r.push(h));
    } else {
        assert(!score_ge(r[r.len() - 1], h));
        lemma_insert_at(r.drop_last(), h, j);
        assert(r.insert(j, h) =~= r.drop_last().insert(j, h).push(r.last()));
    }
}

/// Every result has at least one turn.
pub open spec fn all_counted(s: Seq<HitView>) -> bool {
    forall|i: int| 0 <= i < s.len() ==> (#[trigger] s[i]).total > 0
}

/// Each result scores at least as high as every later one.
pub open spec fn best_first(s: Seq<HitView>) -> bool {
    forall|i: int, j: int| 0 <= i < j < s.len() ==> score_ge(#[trigger] s[i], #[trigger] s[j])
}

proof fn lemma_score_trans(a: HitView, b: HitView, c: HitView)
    requires
        b.total > 0,
        score_ge(a, b),
        score_ge(b, c),
    ensures
        score_ge(a, c),
{
    let (am, at, bm, bt, cm, ct) = (a.matched as int, a.total as int, b.matched as int, b.total as int, c.matched as int, c.total as int);
    assert(am * ct >= cm * at) by (nonlinear_arith)
        requires
            bt > 0,
            at >= 0,
            ct >= 0,
            am * bt >= bm * at,
            bm * ct >= cm * bt,
    {
        assert(am * bt * ct >= bm * at * ct);
        assert(bm * ct * at >= cm * bt * at);
        assert((am * ct) * bt >= (cm * at) * bt);
    }
}

proof fn lemma_insert_bounded(r: Seq<HitView>, h: HitView, b: HitView)
    requires
        forall|i: int| 0 <= i < r.len() ==> score_ge(#[trigger] r[i], b),
        score_ge(h, b),
        all_counted(r),
        h.total > 0,
    ensures
        forall|i: int| 0 <= i < insert_ranked(r, h).len() ==> score_ge(#[trigger] insert_ranked(r, h)[i], b),
        all_counted(insert_ranked(r, h)),
        insert_ranked(r, h).to_multiset() == r.to_multiset().insert(h),
    decreases r.len(),
{
    broadcast use vstd::seq_lib::group_seq_properties;

    if r.len() == 0 {
        assert(seq![h] =~= r.push(h));
    } else if score_ge(r.last(), h) {
    } else {
        let q = insert_ranked(r.drop_last(), h);
        lemma_insert_bounded(r.drop_last(), h, b);
        assert(r.drop_last().push(r.last()) =~= r);
        assert(q.push(r.last()).to_multiset() =~= q.to_multiset().insert(r.last()));
        assert(r.to_multiset() =~= r.drop_last().to_multiset().insert(r.last()));
        assert(q.to_multiset().insert(r.last()) =~= r.to_multiset().insert(h));
    }
}

proof fn lemma_insert_keeps_order(r: Seq<HitView>, h: HitView)
    requires
        best_first(r),
        all_counted(r),
        h.total > 0,
    ensures
        best_first(insert_ranked(r, h)),
        all_counted(insert_ranked(r, h)),
        insert_ranked(r, h).to_multiset() == r.to_multiset().insert(h),
    decreases r.len(),
{
    broadcast use vstd::seq_lib::group_seq_properties;

    if r.len() == 0 {
        assert(seq![h] =~= r.push(h));
    } else if score_ge(r.last(), h) {
        let n = r.len() - 1;
        assert forall|i: int, j: int| 0 <= i < j < r.push(h).len() implies score_ge(
            #[trigger] r.push(h)[i],
            #[trigger] r.push(h)[j],
        ) by {
            if j == r.len() {
                if i < n {
                    assert(score_ge(r[i], r[n]));
                    lemma_score_trans(r[i], r[n], h);
                }
            } else {
                assert(score_ge(r[i], r[j]));
            }
        }
    } else {
        let last = r.last();
        let rest = r.drop_last();
        let q = insert_ranked(rest, h);
        lemma_insert_keeps_order(rest, h);
        assert forall|i: int| 0 <= i < rest.len() implies score_ge(#[trigger] rest[i], last) by {
            assert(score_ge(r[i], r[r.len() - 1]));
        }
        lemma_insert_bounded(rest, h, last);
        assert forall|i: int, j: int| 0 <= i < j < q.push(last).len() implies score_ge(
            #[trigger] q.push(last)[i],
            #[trigger] q.push(last)[j],
        ) by {
            if j == q.len() {
                assert(score_ge(q[i], last));
            } else {
                assert(score_ge(q[i], q[j]));
            }
        }
        assert(rest.push(last) =~= r);
        assert(q.push(last).to_multiset() =~= q.to_multiset().insert(last));
        assert(r.to_multiset() =~= rest.to_multiset().insert(last));
        assert(q.to_multiset().insert(last) =~= r.to_multiset().insert(h));
    }
}

/// Search results come best first: each result's share of matching turns
/// is at least that of every later one, and ranking neither drops nor
/// adds a result.
pub proof fn law_ranked_best_first(hs: Seq<HitView>)
    requires
        all_counted(hs),
    ensures
        best_first(ranked(hs)),
        ranked(hs).to_multiset() == hs.to_multiset(),
    decreases hs.len(),
{
    broadcast use vstd::seq_lib::group_seq_properties;

    if hs.len() == 0 {
        assert(ranked(hs).to_multiset() =~= hs.to_multiset());
    } else {
        let rest = hs.drop_last();
        assert forall|i: int| 0 <= i < rest.len() implies (#[trigger] rest[i]).total > 0 by {
            assert(hs[i].total > 0);
        }
        law_ranked_best_first(rest);
        lemma_ranked_counted(rest);
        assert(hs[hs.len() - 1].total > 0);
        lemma_insert_keeps_order(ranked(rest), hs.last());
        assert(rest.push(hs.last()) =~= hs);
        assert(hs.to_multiset() =~= rest.to_multiset().insert(hs.last()));
    }
}

proof fn lemma_ranked_counted(hs: Seq<HitView>)
    requires
        all_counted(hs),
    ensures
        all_counted(ranked(hs)),
    decreases hs.len(),
{
    if hs.len() > 0 {
        let rest = hs.drop_last();
        assert forall|i: int| 0 <= i < rest.len() implies (#[trigger] rest[i]).total > 0 by {
            assert(hs[i].total > 0);
        }
        lemma_ranked_counted(rest);
        assert(hs[hs.len() - 1].total > 0);
        lemma_insert_counted(ranked(rest), hs.last());
    }
}

proof fn lemma_matching_len(ts: Seq<TurnView>, kws: Seq<Seq<char>>)
    ensures
        matching_turns(ts, kws).len() <= ts.len(),
    decreases ts.len(),
{
    if ts.len() > 0 {
        lemma_matching_len(ts.drop_last(), kws);
    }
}

proof fn lemma_hits_counted(st: ConversationStore, ids: Seq<Seq<char>>, kws: Seq<Seq<char>>)
    ensures
        all_counted(hits_among(st, ids, kws)),
    decreases ids.len(),
{
    if ids.len() > 0 {
        lemma_hits_counted(st, ids.drop_last(), kws);
        lemma_matching_len(st.turns_of(ids.last()), kws);
    }
}

proof fn lemma_insert_counted(r: Seq<HitView>, h: HitView)
    requires
        all_counted(r),
        h.total > 0,
    ensures
        all_counted(insert_ranked(r, h)),
    decreases r.len(),
{
    if r.len() > 0 && !score_ge(r.last(), h) {
        lemma_insert_counted(r.drop_last(), h);
    }
}

proof fn lemma_wide_product(x: u128, y: u128)
    requires
        x <= usize::MAX,
        y <= usize::MAX,
    ensures
        x * y <= u128::MAX,
{
    assert(usize::MAX <= 0xffff_ffff_ffff_ffffu128);
    assert(x * y <= 0xffff_ffff_ffff_ffffu128 * 0xffff_ffff_ffff_ffffu128) by (nonlinear_arith)
        requires
            x <= 0xffff_ffff_ffff_ffffu128,
            y <= 0xffff_ffff_ffff_ffffu128,
    ;
}

fn scores_at_least(a: &SearchResult, b: &SearchResult) -> (r: bool)
    ensures
        r == score_ge(a@, b@),
{
    let (am, bt, bm, at) = (a.matched as u128, b.total as u128, b.matched as u128, a.total as u128);
    proof {
        lemma_wide_product(am, bt);
        lemma_wide_product(bm, at);
    }
    am * bt >= bm * at
}

/// Orders search results by score, highest first, keeping the order of
/// equal scores.
pub fn rank_results(hits: Vec<SearchResult>) -> (r: Vec<SearchResult>)
    ensures
        hit_views(r@) == ranked(hit_views(hits@)),
{
    let ghost all = hit_views(hits@);
    let mut rest = hits;
    let mut out: Vec<SearchResult> = Vec::new();
    let ghost k: int = 0;
    while rest.len() > 0
        invariant
            0 <= k <= all.len(),
            hit_views(rest@) == all.skip(k),
            hit_views(out@) == ranked(all.take(k)),
        decreases rest.len(),
    {
        let ghost rv = rest@;
        let h = rest.remove(0);
        proof {
            assert(h == rv[0]);
            assert(hit_views(rv).len() == rv.len());
            assert(hit_views(rv)[0] == rv[0]@);
            assert(k < all.len());
            assert(all.skip(k)[0] == h@);
            assert(all[k] == h@);
            assert(rest@ =~= rv.drop_first());
            assert(hit_views(rest@) =~= hit_views(rv).drop_first());
            assert(hit_views(rest@) =~= all.skip(k + 1));
        }
        let mut j: usize = out.len();
        while j > 0 && !scores_at_least(&out[j - 1], &h)
            invariant
                j <= out.len(),
                forall|m: int| j <= m < out@.len() ==> !score_ge(#[trigger] hit_views(out@)[m], h@),
            decreases j,
        {
            j = j - 1;
        }
        proof {
            let ov = hit_views(out@);
            lemma_insert_at(ov, h@, j as int);
            assert(all.take(k + 1).drop_last() =~= all.take(k));
            assert(all.take(k + 1).last() == h@);
        }
        let ghost ov = hit_views(out@);
        out.insert(j, h);
        proof {
            assert(hit_views(out@) =~= ov.insert(j as int, all[k]));
            k = k + 1;
        }
    }
    proof {
        assert(all.take(k) =~= all);
    }
    out
}

/// Copies of `ts[from..]`.
fn copy_turns(ts: &Vec<Turn>, from: usize) -> (r: Vec<Turn>)
    requires
        from <= ts.len(),
    ensures
        turn_views(r@) == turn_views(ts@).skip(from as int),
{
    let mut out: Vec<Turn> = Vec::new();
    let mut i: usize = from;
    while i < ts.len()
        invariant
            from <= i <= ts.len(),
            turn_views(out@) == turn_views(ts@).subrange(from as int, i as int),
        decreases ts.len() - i,
    {
        let ghost before = turn_views(out@);
        out.push(ts[i].copy());
        assert(turn_views(out@) =~= before.push(ts@[i as int]@));
        assert(turn_views(ts@).subrange(from as int, i + 1) =~= turn_views(ts@).subrange(from as int, i as int).push(ts@[i as int]@));
        i = i + 1;
    }
    assert(turn_views(ts@).subrange(from as int, ts.len() as int) =~= turn_views(ts@).skip(from as int));
    out
}

fn turn_hits(t: &Turn, kws: &Vec<Vec<char>>) -> (r: bool)
    ensures
        r == turn_matches(t@, kws@.map_values(|w: Vec<char>| w@)),
{
    let ghost ks = kws@.map_values(|w: Vec<char>| w@);
    let content = to_lowercase(t.content.as_str());
    let mut i: usize = 0;
    while i < kws.len()
        invariant
            i <= kws.len(),
            ks == kws@.map_values(|w: Vec<char>| w@),
            content@ == lowercase(t@.content),
            forall|j: int| 0 <= j < i ==> !contains(lowercase(t@.content), lowercase(#[trigger] ks[j])),
        decreases kws.len() - i,
    {
        let k = to_lowercase(string_from_chars(kws[i].as_slice()).as_str());
        assert(ks[i as int] == kws@[i as int]@);
        if str_contains(content.as_str(), k.as_str()) {
            return true;
        }
        i = i + 1;
    }
    false
}

/// The turns that hold a word of `query` (compared lowercased), in order.
pub fn filter_matching(ts: &Vec<Turn>, query: &str) -> (r: Vec<Turn>)
    ensures
        turn_views(r@) == matching_turns(turn_views(ts@), words(query@)),
{
    let kws = split_words(&chars_of(query));
    let ghost all = turn_views(ts@);
    let mut out: Vec<Turn> = Vec::new();
    let mut i: usize = 0;
    while i < ts.len()
        invariant
            i <= ts.len(),
            all == turn_views(ts@),
            kws@.map_values(|w: Vec<char>| w@) == words(query@),
            turn_views(out@) == matching_turns(all.take(i as int), words(query@)),
        decreases ts.len() - i,
    {
        let ghost before = turn_views(out@);
        assert(all.take(i + 1).drop_last() =~= all.take(i as int));
        assert(all.take(i + 1).last() == ts@[i as int]@);
        if turn_hits(&ts[i], &kws) {
            out.push(ts[i].copy());
            assert(turn_views(out@) =~= before.push(ts@[i as int]@));
        }
        i = i + 1;
    }
    assert(all.take(ts.len() as int) =~= all);
    out
}

fn concept_list(ts: &Vec<Turn>) -> (r: Vec<String>)
    ensures
        views(r@) == concepts_of(turn_views(ts@)),
{
    let ghost all = turn_views(ts@);
    let mut out: Vec<String> = Vec::new();
    let mut i: usize = 0;
    while i < ts.len()
        invariant
            i <= ts.len(),
            all == turn_views(ts@),
            views(out@) == concepts_of(all.take(i as int)),
        decreases ts.len() - i,
    {
        let ghost before = views(out@);
        assert(all.take(i + 1).drop_last() =~= all.take(i as int));
        assert(all.take(i + 1).last() == ts@[i as int]@);
        match &ts[i].concept {
            Some(c) => {
                let mut seen = false;
                let mut k: usize = 0;
                while k < out.len()
                    invariant
                        k <= out.len(),
                        seen == exists|j: int| 0 <= j < k && views(out@)[j] == c@,
                    decreases out.len() - k,
                {
                    assert(views(out@)[k as int] == out@[k as int]@);
                    if str_eq(out[k].as_str(), c.as_str()) {
                        seen = true;
                    }
                    k = k + 1;
                }
                if !seen {
                    out.push(c.clone());
                    assert(views(out@) =~= before.push(c@));
                }
            },
            None => {},
        }
        i = i + 1;
    }
    assert(all.take(ts.len() as int) =~= all);
    out
}

fn first_student_text(ts: &Vec<Turn>) -> (r: Option<String>)
    ensures
        match first_student(turn_views(ts@)) {
            Some(c) => r matches Some(x) && x@ == c,
            None => r is None,
        },
{
    let ghost all = turn_views(ts@);
    let mut i: usize = 0;
    assert(all.skip(0) =~= all);
    while i < ts.len()
        invariant
            i <= ts.len(),
            all == turn_views(ts@),
            first_student(all) == first_student(all.skip(i as int)),
        decreases ts.len() - i,
    {
        assert(all.skip(i as int)[0] == ts@[i as int]@);
        assert(all.skip(i as int).drop_first() =~= all.skip(i + 1));
        if ts[i].role == TurnRole::Student {
            return Some(ts[i].content.clone());
        }
        i = i + 1;
    }
    None
}

/// The context a new turn of a session gets: its last five turns, the
/// concepts discussed, the turn count, a summary, and when it started and
/// was last active.
pub fn context_of(session_id: &str, ts: &Vec<Turn>) -> (r: SessionContext)
    ensures
        r.session_id@ == session_id@,
        turn_views(r.recent_turns@) == recent(turn_views(ts@), 5),
        views(r.concepts_discussed@) == concepts_of(turn_views(ts@)),
        r.total_turns == ts.len(),
        match summary_of(turn_views(ts@)) {
            Some(s) => r.summary matches Some(x) && x@ == s,
            None => r.summary is None,
        },
        r.first_seen == if ts.len() > 0 { Some(ts@[0].timestamp) } else { None },
        r.last_active == if ts.len() > 0 { Some(ts@.last().timestamp) } else { None },
{
    let total = ts.len();
    let from = if 5 < total {
        total - 5
    } else {
        0
    };
    let recent_turns = copy_turns(ts, from);
    proof {
        if total <= 5 {
            assert(turn_views(ts@).skip(0) =~= turn_views(ts@));
        }
    }
    let concepts = concept_list(ts);
    let summary = if total > 0 {
        let mut s = concat("已进行", decimal(total as u64).as_str());
        push_str(&mut s, "轮对话，讨论了");
        push_str(&mut s, decimal(concepts.len() as u64).as_str());
        push_str(&mut s, "个概念。学生主要关注：");
        match first_student_text(ts) {
            Some(c) => push_str(&mut s, c.as_str()),
            None => push_str(&mut s, "未知"),
        }
        proof {
            assert(views(concepts@).len() == concepts.len());
        }
        Some(s)
    } else {
        None
    };
    let first_seen = if total > 0 {
        Some(ts[0].timestamp)
    } else {
        None
    };
    let last_active = if total > 0 {
        Some(ts[total - 1].timestamp)
    } else {
        None
    };
    SessionContext {
        session_id: owned(session_id),
        recent_turns,
        concepts_discussed: concepts,
        total_turns: total,
        summary,
        first_seen,
        last_active,
    }
}

/// The history block for a session's prompt.
pub fn build_context_prompt(ts: &Vec<Turn>) -> (r: String)
    ensures
        r@ == context_prompt(turn_views(ts@)),
{
    if ts.len() == 0 {
        return String::new();
    }
    let ctx = context_of("", ts);
    let mut p = owned("[历史对话上下文]\n");
    match &ctx.summary {
        Some(s) => {
            push_str(&mut p, "📋 ");
            push_str(&mut p, s.as_str());
            push_str(&mut p, "\n\n");
        },
        None => {},
    }
    if ctx.concepts_discussed.len() > 0 {
        push_str(&mut p, "已讨论概念: ");
        let mut parts: Vec<Vec<char>> = Vec::new();
        let mut i: usize = 0;
        while i < ctx.concepts_discussed.len()
            invariant
                i <= ctx.concepts_discussed.len(),
                parts@.map_values(|w: Vec<char>| w@) == views(ctx.concepts_discussed@).take(i as int),
            decreases ctx.concepts_discussed.len() - i,
        {
            let ghost before = parts@.map_values(|w: Vec<char>| w@);
            parts.push(chars_of(ctx.concepts_discussed[i].as_str()));
            assert(parts@.map_values(|w: Vec<char>| w@) =~= before.push(ctx.concepts_discussed@[i as int]@));
            assert(views(ctx.concepts_discussed@).take(i + 1) =~= views(ctx.concepts_discussed@).take(i as int).push(ctx.concepts_discussed@[i as int]@));
            i = i + 1;
        }
        assert(views(ctx.concepts_discussed@).take(ctx.concepts_discussed.len() as int) =~= views(ctx.concepts_discussed@));
        let sep = chars_of("、");
        let joined = crate::text::join_chars(&parts, parts.len(), &sep);
        assert(parts@.map_values(|w: Vec<char>| w@).take(parts.len() as int) =~= parts@.map_values(|w: Vec<char>| w@));
        push_str(&mut p, string_from_chars(joined.as_slice()).as_str());
        push_str(&mut p, "\n\n");
    }
    push_str(&mut p, "最近对话:\n");
    let ghost rs = turn_views(ctx.recent_turns@);
    let ghost start = p@;
    let mut i: usize = 0;
    while i < ctx.recent_turns.len()
        invariant
            i <= ctx.recent_turns.len(),
            rs == turn_views(ctx.recent_turns@),
            p@ == start + turn_lines(rs.take(i as int)),
        decreases ctx.recent_turns.len() - i,
    {
        let t = &ctx.recent_turns[i];
        let label = match t.role {
            TurnRole::Student => "学生",
            TurnRole::Tutor => "AI",
            TurnRole::System => "系统",
        };
        push_str(&mut p, "[");
        push_str(&mut p, label);
        push_str(&mut p, "]: ");
        push_str(&mut p, t.content.as_str());
        push_str(&mut p, "\n");
        assert(rs.take(i + 1).drop_last() =~= rs.take(i as int));
        assert(rs.take(i + 1).last() == t@);
        i = i + 1;
    }
    assert(rs.take(ctx.recent_turns.len() as int) =~= rs);
    push_str(&mut p, "\n请基于以上历史上下文继续对话。不要重复已讨论过的内容。\n");
    p
}

} // verus!
