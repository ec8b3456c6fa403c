//! The memory a tutoring session draws on, in three layers: knowledge shared
//! by every student, the linked student's own profile, and the session's
//! conversation. The student profiles keep fractional mastery scores and are
//! held by the server; their context text is handed in where it is needed.

use vstd::prelude::*;

use crate::conversation::{
    best_first, build_context_prompt, concepts_of, context_of, context_prompt, hit_views, hits_among, ranked,
    recent, summary_of, turn_views, ConversationStore, SearchResult, SessionContext, Turn, TurnRole, TurnView,
};
use crate::shared::{hardest, shared_parts, with_exposure, SharedMemory};
use crate::text::{join, join_strings, owned, push_str, str_eq, views, words};

verus! {

/// The bar drawn above and below the merged context.
pub open spec fn context_bar() -> Seq<char> {
    "══════════════════════════════════════"@
}

/// A layer of context, kept only when it says something.
pub open spec fn layer(s: Seq<char>) -> Seq<Seq<char>> {
    if s.len() > 0 {
        seq![s]
    } else {
        Seq::empty()
    }
}

/// The layers joined by blank lines between two bars; nothing when there is
/// no layer.
pub open spec fn framed(layers: Seq<Seq<char>>) -> Seq<char> {
    if layers.len() == 0 {
        Seq::empty()
    } else {
        context_bar() + "\n"@ + join(layers, "\n\n"@) + "\n"@ + context_bar() + "\n"@
    }
}

/// The merged context keeps its layers broadest first: with shared
/// knowledge `a`, a profile `b` and a history `c`, each present only when
/// not empty, the result is the present ones in that order, joined by
/// blank lines between the bars; with none of them it is empty.
pub proof fn law_layers_in_order(a: Seq<char>, b: Seq<char>, c: Seq<char>)
    ensures
        a.len() > 0 && b.len() > 0 && c.len() > 0 ==> framed(layer(a) + layer(b) + layer(c)) == context_bar()
            + "\n"@ + a + "\n\n"@ + b + "\n\n"@ + c + "\n"@ + context_bar() + "\n"@,
        a.len() == 0 && b.len() > 0 && c.len() > 0 ==> framed(layer(a) + layer(b) + layer(c)) == context_bar()
            + "\n"@ + b + "\n\n"@ + c + "\n"@ + context_bar() + "\n"@,
        a.len() == 0 && b.len() == 0 && c.len() == 0 ==> framed(layer(a) + layer(b) + layer(c)).len() == 0,
{
    if a.len() > 0 && b.len() > 0 && c.len() > 0 {
        let ls = layer(a) + layer(b) + layer(c);
        assert(ls =~= seq![a, b, c]);
        assert(ls.drop_last() =~= seq![a, b]);
        assert(ls.drop_last().drop_last() =~= seq![a]);
        let sep = "\n\n"@;
        assert(join(seq![a], sep) == a);
        assert(join(seq![a, b], sep) == join(seq![a], sep) + sep + b) by {
            assert(seq![a, b].drop_last() =~= seq![a]);
        }
        assert(join(ls, sep) == join(seq![a, b], sep) + sep + c);
        assert(join(ls, sep) =~= a + sep + b + sep + c);
    }
    if a.len() == 0 && b.len() > 0 && c.len() > 0 {
        let ls = layer(a) + layer(b) + layer(c);
        assert(ls =~= seq![b, c]);
        assert(ls.drop_last() =~= seq![b]);
        let sep = "\n\n"@;
        assert(join(seq![b], sep) == b);
        assert(join(ls, sep) == join(seq![b], sep) + sep + c);
        assert(join(ls, sep) =~= b + sep + c);
    }
    if a.len() == 0 && b.len() == 0 && c.len() == 0 {
        assert(layer(a) + layer(b) + layer(c) =~= Seq::<Seq<char>>::empty());
    }
}

/// The last concept of a list, if any.
pub open spec fn last_concept(cs: Seq<Seq<char>>) -> Option<Seq<char>> {
    if cs.len() > 0 {
        Some(cs.last())
    } else {
        None
    }
}

/// The view of an optional text.
pub open spec fn opt_view(o: Option<&str>) -> Option<Seq<char>> {
    match o {
        Some(x) => Some(x@),
        None => None,
    }
}

/// The concept an exposure is counted under.
pub open spec fn concept_or_unknown(c: Option<Seq<char>>) -> Seq<char> {
    match c {
        Some(x) => x,
        None => "unknown"@,
    }
}

/// Whether `after` is `before` followed by the student's turn and the
/// tutor's answer, both tagged with `concept`.
pub open spec fn exchange_recorded(
    before: Seq<TurnView>,
    after: Seq<TurnView>,
    student_msg: Seq<char>,
    tutor_response: Seq<char>,
    concept: Option<Seq<char>>,
) -> bool {
    let n = before.len() as int;
    &&& after.len() == n + 2
    &&& after.take(n) == before
    &&& after[n].role == TurnRole::Student && after[n].content == student_msg && after[n].concept == concept
    &&& after[n + 1].role == TurnRole::Tutor && after[n + 1].content == tutor_response && after[n + 1].concept
        == concept
}

/// Index of the link of session `id` in a list of (session, user) links.
pub open spec fn link_index(ls: Seq<(String, String)>, id: Seq<char>) -> Option<int> {
    if exists|i: int| 0 <= i < ls.len() && (#[trigger] ls[i]).0@ == id {
        Some(choose|i: int| 0 <= i < ls.len() && (#[trigger] ls[i]).0@ == id)
    } else {
        None
    }
}

/// Whether each session occurs at most once in a list of links.
pub open spec fn links_unique(ls: Seq<(String, String)>) -> bool {
    forall|i: int, j: int| 0 <= i < j < ls.len() ==> (#[trigger] ls[i]).0@ != (#[trigger] ls[j]).0@
}

/// The three memory layers of the tutor.
pub struct SessionMemory {
    /// The conversation of every session
    pub store: ConversationStore,
    /// Knowledge shared by every student
    pub shared: SharedMemory,
    /// Which user each linked session belongs to
    pub session_users: Vec<(String, String)>,
}

impl SessionMemory {
    /// The turns of a session (none for an unknown session).
    pub open spec fn turns_of(&self, id: Seq<char>) -> Seq<TurnView> {
        self.store.turns_of(id)
    }

    /// The session ids, in the order the sessions started.
    pub open spec fn ids(&self) -> Seq<Seq<char>> {
        self.store.ids()
    }

    /// The user a session is linked to, if any.
    pub open spec fn user_of(&self, id: Seq<char>) -> Option<Seq<char>> {
        match link_index(self.session_users@, id) {
            Some(i) => Some(self.session_users@[i].1@),
            None => None,
        }
    }

    /// The memory's invariant: the store and the shared layer are sound and
    /// each session is linked at most once.
    pub open spec fn wf(&self) -> bool {
        &&& self.store.wf()
        &&& self.shared.wf()
        &&& links_unique(self.session_users@)
    }

    /// Empty memory: no sessions, no links, an empty shared layer.
    pub fn new() -> (r: SessionMemory)
        ensures
            r.wf(),
            r.ids() == Seq::<Seq<char>>::empty(),
            forall|id: Seq<char>| r.turns_of(id) == Seq::<TurnView>::empty(),
            forall|id: Seq<char>| r.user_of(id) is None,
            r.shared.knowledge().len() == 0,
            r.shared.faq_list().len() == 0,
            r.shared.strategy_list().len() == 0,
            r.shared.stats_view().total_sessions == 0,
            r.shared.stats_view().concepts.len() == 0,
            r.shared.stats_view().most_difficult.len() == 0,
    {
        SessionMemory { store: ConversationStore::new(), shared: SharedMemory::new(), session_users: Vec::new() }
    }

    fn find_link(&self, id: &str) -> (r: Option<usize>)
        requires
            self.wf(),
        ensures
            match r {
                Some(i) => i < self.session_users@.len() && link_index(self.session_users@, id@) == Some(i as int),
                None => link_index(self.session_users@, id@) is None,
            },
    {
        let mut i: usize = 0;
        while i < self.session_users.len()
            invariant
                i <= self.session_users.len(),
                self.wf(),
                forall|j: int| 0 <= j < i ==> (#[trigger] self.session_users@[j]).0@ != id@,
            decreases self.session_users.len() - i,
        {
            if str_eq(self.session_users[i].0.as_str(), id) {
                proof {
                    let c = choose|j: int|
                        0 <= j < self.session_users@.len() && (#[trigger] self.session_users@[j]).0@ == id@;
                    if c != i {
                        if c < i {
                            assert(self.session_users@[c].0@ != self.session_users@[i as int].0@);
                        } else {
                            assert(self.session_users@[i as int].0@ != self.session_users@[c].0@);
                        }
                    }
                }
                return Some(i);
            }
            i = i + 1;
        }
        None
    }

    /// Links a session to a user (a later link of the same session replaces
    /// the earlier one). Reading the session's user afterwards gives that
    /// user back; every other session keeps its link.
    pub fn link_session_user(&mut self, session_id: &str, user_id: &str)
        requires
            old(self).wf(),
        ensures
            final(self).wf(),
            final(self).user_of(session_id@) == Some(user_id@),
            forall|id: Seq<char>| id != session_id@ ==> final(self).user_of(id) == old(self).user_of(id),
            forall|id: Seq<char>| final(self).turns_of(id) == old(self).turns_of(id),
            final(self).ids() == old(self).ids(),
            final(self).shared == old(self).shared,
    {
        let ghost ls0 = self.session_users@;
        match self.find_link(session_id) {
            Some(i) => {
                self.session_users.set(i, (owned(session_id), owned(user_id)));
                proof {
                    let ls = self.session_users@;
                    assert(ls[i as int].0@ == session_id@);
                    assert(link_index(ls, session_id@) == Some(i as int)) by {
                        let c = choose|j: int| 0 <= j < ls.len() && (#[trigger] ls[j]).0@ == session_id@;
                        if c != i {
                            assert(ls[c] == ls0[c]);
                            if c < i {
                                assert(ls0[c].0@ != ls0[i as int].0@);
                            } else {
                                assert(ls0[i as int].0@ != ls0[c].0@);
                            }
                        }
                    }
                    assert forall|id: Seq<char>| id != session_id@ implies link_index(ls, id) == link_index(ls0, id) by {
                        assert forall|j: int| 0 <= j < ls.len() implies (#[trigger] ls[j]).0@ == id <==> ls0[j].0@ == id by {
                            if j != i {
                                assert(ls[j] == ls0[j]);
                            }
                        }
                        if exists|j: int| 0 <= j < ls.len() && (#[trigger] ls[j]).0@ == id {
                            let c = choose|j: int| 0 <= j < ls.len() && (#[trigger] ls[j]).0@ == id;
                            assert(ls0[c].0@ == id);
                        }
                        if exists|j: int| 0 <= j < ls0.len() && (#[trigger] ls0[j]).0@ == id {
                            let c = choose|j: int| 0 <= j < ls0.len() && (#[trigger] ls0[j]).0@ == id;
                            assert(ls[c].0@ == id);
                        }
                    }
                    assert forall|id: Seq<char>| id != session_id@ implies self.user_of(id) == old(self).user_of(
                        id,
                    ) by {
                        match link_index(ls0, id) {
                            Some(k) => {
                                assert(k != i);
                                assert(ls[k] == ls0[k]);
                            },
                            None => {},
                        }
                    }
                    assert forall|a: int, b: int| 0 <= a < b < ls.len() implies (#[trigger] ls[a]).0@ != (
                    #[trigger] ls[b]).0@ by {
                        assert(ls0[a].0@ != ls0[b].0@);
                        if a != i {
                            assert(ls[a] == ls0[a]);
                        }
                        if b != i {
                            assert(ls[b] == ls0[b]);
                        }
                    }
                }
            },
            None => {
                self.session_users.push((owned(session_id), owned(user_id)));
                proof {
                    let ls = self.session_users@;
                    let n = ls0.len() as int;
                    assert(ls[n].0@ == session_id@);
                    assert forall|j: int| 0 <= j < n implies (#[trigger] ls[j]) == ls0[j] by {}
                    assert(link_index(ls, session_id@) == Some(n)) by {
                        let c = choose|j: int| 0 <= j < ls.len() && (#[trigger] ls[j]).0@ == session_id@;
                        if c != n {
                            assert(ls0[c].0@ == session_id@);
                        }
                    }
                    assert forall|id: Seq<char>| id != session_id@ implies link_index(ls, id) == link_index(ls0, id) by {
                        if exists|j: int| 0 <= j < ls.len() && (#[trigger] ls[j]).0@ == id {
                            let c = choose|j: int| 0 <= j < ls.len() && (#[trigger] ls[j]).0@ == id;
                            assert(c != n);
                            assert(ls0[c].0@ == id);
                        }
                        if exists|j: int| 0 <= j < ls0.len() && (#[trigger] ls0[j]).0@ == id {
                            let c = choose|j: int| 0 <= j < ls0.len() && (#[trigger] ls0[j]).0@ == id;
                            assert(ls[c].0@ == id);
                        }
                    }
                    assert forall|id: Seq<char>| id != session_id@ implies self.user_of(id) == old(self).user_of(
                        id,
                    ) by {
                        match link_index(ls0, id) {
                            Some(k) => {
                                assert(ls[k] == ls0[k]);
                            },
                            None => {},
                        }
                    }
                    assert forall|a: int, b: int| 0 <= a < b < ls.len() implies (#[trigger] ls[a]).0@ != (
                    #[trigger] ls[b]).0@ by {
                        if b == n {
                            assert(ls[a] == ls0[a]);
                        } else {
                            assert(ls[a] == ls0[a]);
                            assert(ls[b] == ls0[b]);
                        }
                    }
                }
            },
        }
    }

    /// The user a session is linked to.
    pub fn get_session_user(&self, session_id: &str) -> (r: Option<String>)
        requires
            self.wf(),
        ensures
            match r {
                Some(u) => self.user_of(session_id@) == Some(u@),
                None => self.user_of(session_id@) is None,
            },
    {
        match self.find_link(session_id) {
            Some(i) => Some(self.session_users[i].1.clone()),
            None => None,
        }
    }

    /// Records a student's message and the tutor's answer at the end of the
    /// session, both tagged with the concept when one is given.
    pub fn record_exchange(&mut self, session_id: &str, student_msg: &str, tutor_response: &str, concept: Option<&str>)
        requires
            old(self).wf(),
        ensures
            final(self).wf(),
            exchange_recorded(
                old(self).turns_of(session_id@),
                final(self).turns_of(session_id@),
                student_msg@,
                tutor_response@,
                opt_view(concept),
            ),
            forall|id: Seq<char>| id != session_id@ ==> final(self).turns_of(id) == old(self).turns_of(id),
            final(self).ids() == if old(self).ids().contains(session_id@) {
                old(self).ids()
            } else {
                old(self).ids().push(session_id@)
            },
            final(self).session_users == old(self).session_users,
            final(self).shared == old(self).shared,
    {
        let ghost before = self.turns_of(session_id@);
        let (s, t) = match concept {
            Some(c) => (Turn::student(student_msg).with_concept(c), Turn::tutor(tutor_response).with_concept(c)),
            None => (Turn::student(student_msg), Turn::tutor(tutor_response)),
        };
        let ghost sv = s@;
        let ghost tv = t@;
        let ghost ids0 = self.ids();
        self.store.record(session_id, s);
        let ghost ids1 = self.ids();
        self.store.record(session_id, t);
        proof {
            let after = self.turns_of(session_id@);
            assert(after == before.push(sv).push(tv));
            assert(after.take(before.len() as int) =~= before);
            if !ids0.contains(session_id@) {
                assert(ids1.contains(session_id@)) by {
                    assert(ids1[ids1.len() - 1] == session_id@);
                }
            }
        }
    }

    /// Records an exchange and, when the session is linked to a user, counts
    /// the concept's exposure in the shared layer: the concept (or
    /// "unknown") with full mastery unless the answer was judged wrong, and
    /// the misconception seen, if any. Returns the user, the concept and the
    /// verdict for the student's own profile, or nothing when the session is
    /// not linked.
    pub fn record_exchange_with_user(
        &mut self,
        session_id: &str,
        student_msg: &str,
        tutor_response: &str,
        concept: Option<&str>,
        correct: Option<bool>,
        misconception: Option<&str>,
    ) -> (r: Option<(String, String, bool)>)
        requires
            old(self).wf(),
            old(self).user_of(session_id@) is Some ==> old(self).shared.stats_view().total_sessions < u32::MAX,
        ensures
            final(self).wf(),
            exchange_recorded(
                old(self).turns_of(session_id@),
                final(self).turns_of(session_id@),
                student_msg@,
                tutor_response@,
                opt_view(concept),
            ),
            forall|id: Seq<char>| id != session_id@ ==> final(self).turns_of(id) == old(self).turns_of(id),
            final(self).session_users == old(self).session_users,
            final(self).shared.knowledge() == old(self).shared.knowledge(),
            final(self).shared.faq_list() == old(self).shared.faq_list(),
            final(self).shared.strategy_list() == old(self).shared.strategy_list(),
            match old(self).user_of(session_id@) {
                Some(u) => {
                    let c = concept_or_unknown(opt_view(concept));
                    let ok = match correct {
                        Some(b) => b,
                        None => true,
                    };
                    &&& r matches Some(x) && x.0@ == u && x.1@ == c && x.2 == ok
                    &&& final(self).shared.stats_view().concepts == with_exposure(
                        old(self).shared.stats_view().concepts,
                        c,
                        if ok { 1000u32 } else { 0u32 },
                        opt_view(misconception),
                    )
                    &&& final(self).shared.stats_view().total_sessions == old(self).shared.stats_view().total_sessions + 1
                    &&& final(self).shared.stats_view().most_difficult == hardest(final(self).shared.stats_view().concepts)
                },
                None => r is None && final(self).shared == old(self).shared,
            },
    {
        self.record_exchange(session_id, student_msg, tutor_response, concept);
        match self.get_session_user(session_id) {
            Some(uid) => {
                let c = match concept {
                    Some(c) => owned(c),
                    None => owned("unknown"),
                };
                proof {
                    reveal_strlit("unknown");
                }
                let ok = match correct {
                    Some(b) => b,
                    None => true,
                };
                let mastery: u32 = if ok {
                    1000
                } else {
                    0
                };
                self.shared.record_exposure(c.as_str(), mastery, misconception);
                Some((uid, c, ok))
            },
            None => None,
        }
    }

    /// The context of a session: its last five turns, the concepts
    /// discussed, the turn count, a summary, and when it started and was
    /// last active.
    pub fn get_context(&self, session_id: &str) -> (r: SessionContext)
        requires
            self.wf(),
        ensures
            r.session_id@ == session_id@,
            turn_views(r.recent_turns@) == recent(self.turns_of(session_id@), 5),
            views(r.concepts_discussed@) == concepts_of(self.turns_of(session_id@)),
            r.total_turns == self.turns_of(session_id@).len(),
            match summary_of(self.turns_of(session_id@)) {
                Some(s) => r.summary matches Some(x) && x@ == s,
                None => r.summary is None,
            },
            r.first_seen == if self.turns_of(session_id@).len() > 0 {
                Some(self.turns_of(session_id@)[0].timestamp)
            } else {
                None
            },
            r.last_active == if self.turns_of(session_id@).len() > 0 {
                Some(self.turns_of(session_id@).last().timestamp)
            } else {
                None
            },
    {
        let ts = self.store.get_session(session_id);
        context_of(session_id, &ts)
    }

    /// The history block of a session's prompt (empty for a new session).
    pub fn build_context_prompt(&self, session_id: &str) -> (r: String)
        requires
            self.wf(),
        ensures
            r@ == context_prompt(self.turns_of(session_id@)),
    {
        let ts = self.store.get_session(session_id);
        build_context_prompt(&ts)
    }

    /// The full context for a new turn, broadest layer first: what the
    /// shared layer knows of the concept (the hint, or else the last concept
    /// the session discussed), the profile text of the linked student, and
    /// the session's history; empty layers are left out, the rest joined by
    /// blank lines between two bars, and nothing at all when every layer is
    /// empty. `user_context` is the linked student's profile text; it is
    /// used only when the session is linked.
    pub fn build_full_context(&self, session_id: &str, concept_hint: Option<&str>, user_context: &str) -> (r: String)
        requires
            self.wf(),
        ensures
            r@ == framed(
                layer(
                    join(
                        shared_parts(
                            self.shared.knowledge(),
                            self.shared.faq_list(),
                            self.shared.stats_view().most_difficult,
                            match concept_hint {
                                Some(h) => Some(h@),
                                None => last_concept(concepts_of(self.turns_of(session_id@))),
                            },
                        ),
                        "\n"@,
                    ),
                ) + (if self.user_of(session_id@) is Some {
                    layer(user_context@)
                } else {
                    Seq::empty()
                }) + layer(context_prompt(self.turns_of(session_id@))),
            ),
    {
        let hint: Option<String> = match concept_hint {
            Some(c) => Some(owned(c)),
            None => {
                let ctx = self.get_context(session_id);
                let n = ctx.concepts_discussed.len();
                if n > 0 {
                    proof {
                        assert(views(ctx.concepts_discussed@)[n - 1] == ctx.concepts_discussed@[n - 1]@);
                    }
                    Some(ctx.concepts_discussed[n - 1].clone())
                } else {
                    None
                }
            },
        };
        let shared_ctx = match &hint {
            Some(h) => self.shared.build_shared_context(Some(h.as_str())),
            None => self.shared.build_shared_context(None),
        };
        let mut layers: Vec<String> = Vec::new();
        let ghost want_user: Seq<Seq<char>> = if self.user_of(session_id@) is Some {
            layer(user_context@)
        } else {
            Seq::empty()
        };
        if shared_ctx.as_str().unicode_len() > 0 {
            layers.push(shared_ctx);
        }
        assert(views(layers@) =~= layer(shared_ctx@));
        let ghost l1 = views(layers@);
        let linked = self.get_session_user(session_id);
        if linked.is_some() && user_context.unicode_len() > 0 {
            layers.push(owned(user_context));
        }
        assert(views(layers@) =~= l1 + want_user);
        let ghost l2 = views(layers@);
        let session_ctx = self.build_context_prompt(session_id);
        if session_ctx.as_str().unicode_len() > 0 {
            layers.push(session_ctx);
        }
        assert(views(layers@) =~= l2 + layer(session_ctx@));
        if layers.len() == 0 {
            return String::new();
        }
        let bar = "══════════════════════════════════════";
        proof {
            reveal_strlit("══════════════════════════════════════");
        }
        let mut out = owned(bar);
        push_str(&mut out, "\n");
        push_str(&mut out, join_strings(&layers, "\n\n").as_str());
        push_str(&mut out, "\n");
        push_str(&mut out, bar);
        push_str(&mut out, "\n");
        out
    }

    /// Searches every session for the words of `query`: the sessions with a
    /// matching turn, best share of matching turns first.
    pub fn search(&self, query: &str) -> (r: Vec<SearchResult>)
        requires
            self.wf(),
        ensures
            hit_views(r@) == ranked(hits_among(self.store, self.store.ids(), words(query@))),
            best_first(hit_views(r@)),
    {
        self.store.search_all(query)
    }

    /// Number of turns of a session.
    pub fn session_turns(&self, session_id: &str) -> (r: usize)
        requires
            self.wf(),
        ensures
            r == self.turns_of(session_id@).len(),
    {
        self.store.count(session_id)
    }

    /// The session ids, in the order the sessions started.
    pub fn list_sessions(&self) -> (r: Vec<String>)
        ensures
            views(r@) == self.ids(),
    {
        self.store.list_sessions()
    }

    /// Copies of a session's turns.
    pub fn get_history(&self, session_id: &str) -> (r: Vec<Turn>)
        requires
            self.wf(),
        ensures
            turn_views(r@) == self.turns_of(session_id@),
    {
        self.store.get_session(session_id)
    }
}

impl Default for SessionMemory {
    fn default() -> (r: SessionMemory)
        ensures
            r.wf(),
            r.ids() == Seq::<Seq<char>>::empty(),
            forall|id: Seq<char>| r.user_of(id) is None,
    {
        SessionMemory::new()
    }
}

} // verus!
