//! Reading a language model's JSON reply: the string fields the caller asks
//! for, and what the proposer, the goal parser and the prompt optimizer make
//! of them.

use vstd::prelude::*;

use crate::agent::{fallback_plan, fallback_plan_spec, Priority};
use crate::goal::{goal_after_model, level_of, mode_of, subject_of, concept_of, level_named, mode_named, StudentLevel, TeachingGoal, TeachingMode};
use crate::platform::now_micros;
use crate::text::{concat, join, lowercase, owned, push_str, views};

verus! {

/// What a JSON text gives for some keys: each key's field when it is a
/// string, and, when the text is an array, the same for each element.
#[derive(Debug)]
pub struct JsonRead {
    pub fields: Vec<Option<String>>,
    pub items: Option<Vec<Vec<Option<String>>>>,
}

/// The mathematical content of a `JsonRead`.
pub struct JsonReadView {
    pub fields: Seq<Option<Seq<char>>>,
    pub items: Option<Seq<Seq<Option<Seq<char>>>>>,
}

/// The views of optional strings.
pub open spec fn opt_strs(v: Seq<Option<String>>) -> Seq<Option<Seq<char>>> {
    v.map_values(|o: Option<String>| match o {
        Some(s) => Some(s@),
        None => None,
    })
}

/// The view of a `JsonRead`.
pub open spec fn read_view(j: JsonRead) -> JsonReadView {
    JsonReadView {
        fields: opt_strs(j.fields@),
        items: match j.items {
            Some(its) => Some(its@.map_values(|it: Vec<Option<String>>| opt_strs(it@))),
            None => None,
        },
    }
}

/// What `serde_json` reads out of `text` for `keys` (`None` when `text` is
/// not JSON).
pub uninterp spec fn json_read_of(text: Seq<char>, keys: Seq<Seq<char>>) -> Option<JsonReadView>;

/// Parses `text` with `serde_json::from_str::<Value>` and, for each key,
/// takes `value[key].as_str()`; when the value is an array it does the
/// same for each element. `None` when the text is not JSON. The result
/// depends on the text and the keys alone.
#[verifier::external_body]
fn read_json(text: &str, keys: &Vec<String>) -> (r: Option<JsonRead>)
    ensures
        match r {
            Some(j) => json_read_of(text@, views(keys@)) == Some(read_view(j)) && j.fields.len() == keys.len(),
            None => json_read_of(text@, views(keys@)) is None,
        },
{
    let v: serde_json::Value = serde_json::from_str(text).ok()?;
    let fields = keys.iter().map(|k| v[k.as_str()].as_str().map(String::from)).collect();
    let items = match &v {
        serde_json::Value::Array(a) => Some(a.iter().map(|e| keys.iter().map(|k| e[k.as_str()].as_str().map(String::from)).collect()).collect()),
        _ => None,
    };
    Some(JsonRead { fields, items })
}

/// The string fields `keys` of a model's JSON reply, or `None` when the
/// reply is not JSON.
pub fn reply_fields(text: &str, keys: &Vec<String>) -> (r: Option<Vec<Option<String>>>)
    ensures
        match r {
            Some(f) => json_read_of(text@, views(keys@)) matches Some(j) && opt_strs(f@) == j.fields && f.len()
                == keys.len(),
            None => json_read_of(text@, views(keys@)) is None,
        },
{
    match read_json(text, keys) {
        Some(j) => Some(j.fields),
        None => None,
    }
}

/// The field at `i`, if there is one and it is a string.
pub open spec fn field_at(f: Seq<Option<Seq<char>>>, i: int) -> Option<Seq<char>> {
    if 0 <= i < f.len() {
        f[i]
    } else {
        None
    }
}

fn field(f: &Vec<Option<String>>, i: usize) -> (r: Option<String>)
    ensures
        match r {
            Some(s) => field_at(opt_strs(f@), i as int) == Some(s@),
            None => field_at(opt_strs(f@), i as int) is None,
        },
{
    if i < f.len() {
        match &f[i] {
            Some(s) => Some(s.clone()),
            None => None,
        }
    } else {
        None
    }
}

/// `o`, or `d` when it is `None`.
pub open spec fn or_default(o: Option<Seq<char>>, d: Seq<char>) -> Seq<char> {
    match o {
        Some(s) => s,
        None => d,
    }
}

fn or_str(o: Option<String>, d: &str) -> (r: String)
    ensures
        r@ == or_default(
            match o {
                Some(s) => Some(s@),
                None => None,
            },
            d@,
        ),
{
    match o {
        Some(s) => s,
        None => owned(d),
    }
}

/// The task the proposer puts forward: the skill, strategy and prompt of
/// the model's reply (`skill`, `strategy`, `prompt`, in that order), each
/// with its default; the rule-based plan for the student's urgency when
/// there is no readable reply.
pub fn proposal_from_reply(fields: Option<Vec<Option<String>>>, p: Priority, concept: &str) -> (r: (String, String, String))
    ensures
        match fields {
            Some(f) => {
                &&& r.0@ == or_default(field_at(opt_strs(f@), 0), "tais-socratic-tutor"@)
                &&& r.1@ == or_default(field_at(opt_strs(f@), 1), "clarification"@)
                &&& r.2@ == or_default(field_at(opt_strs(f@), 2), "请解释这个概念"@)
            },
            None => {
                &&& r.0@ == fallback_plan_spec(p, concept@).0
                &&& r.1@ == fallback_plan_spec(p, concept@).1
                &&& r.2@ == fallback_plan_spec(p, concept@).2
            },
        },
{
    match fields {
        Some(f) => (
            or_str(field(&f, 0), "tais-socratic-tutor"),
            or_str(field(&f, 1), "clarification"),
            or_str(field(&f, 2), "请解释这个概念"),
        ),
        None => {
            let (k, s, q) = fallback_plan(p, concept);
            (owned(k), owned(s), q)
        },
    }
}

/// The keys the proposer reads from the model's reply.
pub fn proposal_keys() -> (r: Vec<String>)
    ensures
        views(r@) == seq!["skill"@, "strategy"@, "prompt"@],
{
    let mut v: Vec<String> = Vec::new();
    v.push(owned("skill"));
    v.push(owned("strategy"));
    v.push(owned("prompt"));
    assert(views(v@) =~= seq!["skill"@, "strategy"@, "prompt"@]);
    v
}

/// The keys the goal parser reads from the model's reply.
pub open spec fn goal_keys() -> Seq<Seq<char>> {
    seq!["subject"@, "concept"@, "mode"@, "level"@]
}

/// The goal for a teacher's sentence given the model's reply text (`None`
/// when the model could not be asked): read from the reply when it is
/// JSON, else the rule-based reading of the sentence.
pub fn goal_from_model_text(reply: Option<&str>, input: &str, teacher_id: &str) -> (g: TeachingGoal)
    ensures
        g.constraints@.len() == 0,
        g.teacher_id@ == teacher_id@,
        ({
            let read = match reply {
                Some(t) => json_read_of(t@, goal_keys()),
                None => None,
            };
            match read {
                Some(j) => {
                    &&& g.subject@ == or_default(field_at(j.fields, 0), "通用"@)
                    &&& g.concept@ == or_default(field_at(j.fields, 1), input@)
                    &&& g.mode == match field_at(j.fields, 2) {
                        Some(m) => mode_named(m),
                        None => TeachingMode::DirectInstruction,
                    }
                    &&& g.target_level == match field_at(j.fields, 3) {
                        Some(l) => level_named(l),
                        None => StudentLevel::Intermediate,
                    }
                },
                None => {
                    let s = lowercase(input@);
                    &&& g.mode == mode_of(s)
                    &&& g.target_level == level_of(s)
                    &&& g.subject@ == subject_of(s)
                    &&& g.concept@ == concept_of(s)
                },
            }
        }),
{
    let mut keys: Vec<String> = Vec::new();
    keys.push(owned("subject"));
    keys.push(owned("concept"));
    keys.push(owned("mode"));
    keys.push(owned("level"));
    assert(views(keys@) =~= goal_keys());
    let read = match reply {
        Some(t) => reply_fields(t, &keys),
        None => None,
    };
    match read {
        Some(f) => {
            let s = field(&f, 0);
            let c = field(&f, 1);
            let m = field(&f, 2);
            let l = field(&f, 3);
            goal_after_model(Some((opt_ref(&s), opt_ref(&c), opt_ref(&m), opt_ref(&l))), input, teacher_id)
        },
        None => goal_after_model(None, input, teacher_id),
    }
}

fn opt_ref(o: &Option<String>) -> (r: Option<&str>)
    ensures
        match o {
            Some(s) => r matches Some(x) && x@ == s@,
            None => r is None,
        },
{
    match o {
        Some(s) => Some(s.as_str()),
        None => None,
    }
}

// ── Prompt variants ──────────────────────────────────────────────────

/// A prompt variant the optimizer proposes for an agent.
#[derive(Debug)]
pub struct PromptVariant {
    pub agent_name: String,
    pub prompt: String,
    pub version: u32,
    /// Microseconds since the Unix epoch
    pub created_at: i64,
}

/// The prompt asking a model for two better variants of an agent's prompt,
/// with at most five recent sessions as evidence.
pub open spec fn variant_prompt_spec(agent_name: Seq<char>, current_prompt: Seq<char>, sessions: Seq<Seq<char>>) -> Seq<char> {
    "You are optimizing teaching prompts. Current prompt for agent '"@ + agent_name + "':\n---\n"@ + current_prompt
        + "\n---\nRecent session data (success=whether student learned):\n"@ + join(
        if sessions.len() > 5 {
            sessions.take(5)
        } else {
            sessions
        },
        "\n"@,
    )
        + "\nGenerate 2 improved prompt variants. Each must be self-contained and teaching-focused.\nReturn ONLY JSON array: [{\"version\":1,\"prompt\":\"...\"},{\"version\":2,\"prompt\":\"...\"}]"@
}

/// The prompt asking for variants of `current_prompt`.
pub fn variant_prompt(agent_name: &str, current_prompt: &str, sessions: &Vec<String>) -> (r: String)
    ensures
        r@ == variant_prompt_spec(agent_name@, current_prompt@, views(sessions@)),
{
    let mut first: Vec<String> = Vec::new();
    let mut i: usize = 0;
    while i < sessions.len() && i < 5
        invariant
            i <= sessions.len(),
            i <= 5,
            views(first@) == views(sessions@).take(i as int),
        decreases sessions.len() - i,
    {
        let ghost before = views(first@);
        first.push(sessions[i].clone());
        assert(views(first@) =~= before.push(sessions@[i as int]@));
        assert(views(sessions@).take(i + 1) =~= views(sessions@).take(i as int).push(sessions@[i as int]@));
        i = i + 1;
    }
    proof {
        if sessions.len() <= 5 {
            assert(views(sessions@).take(sessions.len() as int) =~= views(sessions@));
        }
    }
    let mut s = concat("You are optimizing teaching prompts. Current prompt for agent '", agent_name);
    push_str(&mut s, "':\n---\n");
    push_str(&mut s, current_prompt);
    push_str(&mut s, "\n---\nRecent session data (success=whether student learned):\n");
    push_str(&mut s, crate::text::join_strings(&first, "\n").as_str());
    push_str(
        &mut s,
        "\nGenerate 2 improved prompt variants. Each must be self-contained and teaching-focused.\nReturn ONLY JSON array: [{\"version\":1,\"prompt\":\"...\"},{\"version\":2,\"prompt\":\"...\"}]",
    );
    s
}

/// The variant number of the `i`-th variant: `i + 1`, cast to `u32`.
pub open spec fn variant_version(i: int) -> u32 {
    (i + 1) as u32
}

/// The variants a model's reply gives: one per element of the JSON array,
/// its `prompt` (or `fallback`) numbered from 1; an error naming the reply
/// when it is not a JSON array.
pub fn variants_from_reply(agent_name: &str, reply: &str) -> (r: Result<Vec<PromptVariant>, String>)
    ensures
        ({
            let keys = seq!["prompt"@];
            match json_read_of(reply@, keys) {
                Some(j) => match j.items {
                    Some(its) => r matches Ok(vs) && vs.len() == its.len() && forall|i: int|
                        0 <= i < vs.len() ==> (#[trigger] vs[i]).agent_name@ == agent_name@ && vs[i].prompt@
                            == or_default(field_at(its[i], 0), "fallback"@) && vs[i].version == variant_version(i),
                    None => r matches Err(e) && e@ == "LLM response not valid JSON: "@ + reply@,
                },
                None => r matches Err(e) && e@ == "LLM response not valid JSON: "@ + reply@,
            }
        }),
{
    let mut keys: Vec<String> = Vec::new();
    keys.push(owned("prompt"));
    assert(views(keys@) =~= seq!["prompt"@]);
    let read = read_json(reply, &keys);
    let items = match read {
        Some(j) => match j.items {
            Some(its) => its,
            None => return Err(concat("LLM response not valid JSON: ", reply)),
        },
        None => return Err(concat("LLM response not valid JSON: ", reply)),
    };
    let ghost its = items@.map_values(|it: Vec<Option<String>>| opt_strs(it@));
    let now = now_micros();
    let mut out: Vec<PromptVariant> = Vec::new();
    let mut i: usize = 0;
    while i < items.len()
        invariant
            i <= items.len(),
            its == items@.map_values(|it: Vec<Option<String>>| opt_strs(it@)),
            out.len() == i,
            forall|k: int|
                0 <= k < i ==> (#[trigger] out[k]).agent_name@ == agent_name@ && out[k].prompt@ == or_default(
                    field_at(its[k], 0),
                    "fallback"@,
                ) && out[k].version == variant_version(k),
        decreases items.len() - i,
    {
        let version = (i + 1) as u32;
        let prompt = or_str(field(&items[i], 0), "fallback");
        out.push(PromptVariant { agent_name: owned(agent_name), prompt, version, created_at: now });
        i = i + 1;
    }
    Ok(out)
}

// ── Prompt history ───────────────────────────────────────────────────

/// One prompt change of an agent.
#[derive(Debug)]
pub struct EvolutionRecord {
    pub agent: String,
    /// approved, modified or rejected
    pub action: String,
    pub old_prompt: String,
    pub new_prompt: String,
    /// Microseconds since the Unix epoch
    pub timestamp: i64,
}

/// The mathematical content of an `EvolutionRecord`, without its time.
pub struct RecordView {
    pub agent: Seq<char>,
    pub action: Seq<char>,
    pub old_prompt: Seq<char>,
    pub new_prompt: Seq<char>,
}

/// The prompt an agent has after `rs`: the newest one recorded for it, or
/// `initial`.
pub open spec fn current_prompt(rs: Seq<RecordView>, agent: Seq<char>) -> Seq<char>
    decreases rs.len(),
{
    if rs.len() == 0 {
        "initial"@
    } else if rs.last().agent == agent {
        rs.last().new_prompt
    } else {
        current_prompt(rs.drop_last(), agent)
    }
}

/// Every prompt change, oldest first.
#[derive(Debug)]
pub struct EvolutionLog {
    records: Vec<EvolutionRecord>,
}

impl EvolutionLog {
    /// The changes, oldest first.
    pub closed spec fn records(&self) -> Seq<RecordView> {
        self.records@.map_values(|r: EvolutionRecord| RecordView {
            agent: r.agent@,
            action: r.action@,
            old_prompt: r.old_prompt@,
            new_prompt: r.new_prompt@,
        })
    }

    /// No changes yet.
    pub fn new() -> (r: EvolutionLog)
        ensures
            r.records() == Seq::<RecordView>::empty(),
    {
        let r = EvolutionLog { records: Vec::new() };
        assert(r.records() =~= Seq::<RecordView>::empty());
        r
    }

    /// The prompt an agent has now.
    pub fn current(&self, agent: &str) -> (r: String)
        ensures
            r@ == current_prompt(self.records(), agent@),
    {
        let ghost rs = self.records();
        let mut k: usize = self.records.len();
        assert(rs.take(k as int) =~= rs);
        while k > 0
            invariant
                k <= self.records.len(),
                rs == self.records(),
                current_prompt(rs, agent@) == current_prompt(rs.take(k as int), agent@),
            decreases k,
        {
            assert(rs.take(k as int).last() == rs[k - 1]);
            assert(rs.take(k as int).drop_last() =~= rs.take(k - 1));
            if crate::text::str_eq(self.records[k - 1].agent.as_str(), agent) {
                return self.records[k - 1].new_prompt.clone();
            }
            k = k - 1;
        }
        owned("initial")
    }

    /// Records that `agent` now has `new_prompt`, with the review's
    /// `action`; the old prompt is the one it had.
    pub fn update_prompt(&mut self, agent: &str, new_prompt: &str, action: &str)
        ensures
            final(self).records() == old(self).records().push(
                RecordView {
                    agent: agent@,
                    action: action@,
                    old_prompt: current_prompt(old(self).records(), agent@),
                    new_prompt: new_prompt@,
                },
            ),
    {
        let old_prompt = self.current(agent);
        let ghost before = self.records();
        self.records.push(EvolutionRecord {
            agent: owned(agent),
            action: owned(action),
            old_prompt,
            new_prompt: owned(new_prompt),
            timestamp: now_micros(),
        });
        assert(self.records() =~= before.push(
            RecordView {
                agent: agent@,
                action: action@,
                old_prompt: current_prompt(before, agent@),
                new_prompt: new_prompt@,
            },
        ));
    }

    /// The changes, oldest first.
    pub fn history(&self) -> (r: &Vec<EvolutionRecord>)
        ensures
            r@.map_values(|x: EvolutionRecord| RecordView {
                agent: x.agent@,
                action: x.action@,
                old_prompt: x.old_prompt@,
                new_prompt: x.new_prompt@,
            }) == self.records(),
    {
        &self.records
    }
}

/// What a teacher's review of a proposed prompt decides.
#[derive(Debug, Clone, Copy, PartialEq, Eq, Structural)]
pub enum ReviewDecision {
    Approved,
    Modified,
    Rejected,
}

/// The decision a review's `action` names: approved or modified prompts
/// are taken up, anything else is rejected.
pub fn review_decision(action: &str) -> (r: ReviewDecision)
    ensures
        r == if action@ == "approved"@ {
            ReviewDecision::Approved
        } else if action@ == "modified"@ {
            ReviewDecision::Modified
        } else {
            ReviewDecision::Rejected
        },
{
    if crate::text::str_eq(action, "approved") {
        ReviewDecision::Approved
    } else if crate::text::str_eq(action, "modified") {
        ReviewDecision::Modified
    } else {
        ReviewDecision::Rejected
    }
}

} // verus!
