//! States and outcomes of the autonomous teaching agent.
//!
//! A round of the loop takes one of two paths: the fast path (one LLM call:
//! a skill is picked and run) once the student is doing well, or the
//! quality path (propose, run, rate, deploy) otherwise. The counters below
//! decide the path; the calls themselves are made by the caller.

use vstd::prelude::*;
use crate::checkpoint::WorkingCheckpoint;
use crate::goal::GeneProfile;
use crate::text::owned;
use crate::llm::LlmError;
use crate::skills::SkillError;

verus! {

/// Whether the agent loop runs.
#[derive(Debug, Clone, Copy, PartialEq, Eq, Structural)]
pub enum LoopStatus {
    Idle,
    Running,
    Paused,
    Stopped,
}

/// Urgency of a proposed teaching task (from the student's mastery).
#[derive(Debug, Clone, Copy, PartialEq, Eq, Structural)]
pub enum Priority {
    /// mastery below 0.3: must be addressed now
    Critical,
    /// mastery below 0.5
    High,
    /// mastery below 0.7
    Medium,
    /// mastery from 0.7: enrichment
    Low,
}

/// What the deployer decides about a teaching strategy.
#[derive(Debug, Clone, Copy, PartialEq, Eq, Structural)]
pub enum DeployAction {
    /// Excellent: deploy permanently
    Deploy,
    /// Good enough to keep
    Retain,
    /// Underperforming: mark for review
    FlagForReview,
    /// Failing: remove and retrain
    Retire,
}

/// How many decisions of each kind the deployer has made.
#[derive(Debug, Clone, Copy, PartialEq, Eq, Structural)]
pub struct DeployTally {
    pub deployed_count: u32,
    pub retained_count: u32,
    pub flagged_count: u32,
    pub retired_count: u32,
}

/// How many of `actions` are `a`.
pub open spec fn count_of(actions: Seq<DeployAction>, a: DeployAction) -> nat
    decreases actions.len(),
{
    if actions.len() == 0 {
        0
    } else {
        count_of(actions.drop_last(), a) + if actions.last() == a {
            1nat
        } else {
            0nat
        }
    }
}

impl DeployTally {
    /// The number of decisions counted.
    pub open spec fn total(&self) -> int {
        self.deployed_count + self.retained_count + self.flagged_count + self.retired_count
    }

    /// The count kept for `a`.
    pub open spec fn count(&self, a: DeployAction) -> u32 {
        match a {
            DeployAction::Deploy => self.deployed_count,
            DeployAction::Retain => self.retained_count,
            DeployAction::FlagForReview => self.flagged_count,
            DeployAction::Retire => self.retired_count,
        }
    }

    /// No decisions yet.
    pub fn new() -> (r: DeployTally)
        ensures
            r.total() == 0,
            forall|a: DeployAction| r.count(a) == 0,
    {
        DeployTally { deployed_count: 0, retained_count: 0, flagged_count: 0, retired_count: 0 }
    }

    /// Counts one more decision `a`.
    pub fn record(&mut self, a: DeployAction)
        requires
            old(self).total() < u32::MAX,
        ensures
            final(self).count(a) == old(self).count(a) + 1,
            forall|b: DeployAction| b != a ==> final(self).count(b) == old(self).count(b),
            final(self).total() == old(self).total() + 1,
    {
        match a {
            DeployAction::Deploy => self.deployed_count = self.deployed_count + 1,
            DeployAction::Retain => self.retained_count = self.retained_count + 1,
            DeployAction::FlagForReview => self.flagged_count = self.flagged_count + 1,
            DeployAction::Retire => self.retired_count = self.retired_count + 1,
        }
    }
}

/// The counts of a history of decisions, one per kind.
pub fn tally_actions(actions: &Vec<DeployAction>) -> (r: DeployTally)
    requires
        actions.len() < u32::MAX,
    ensures
        forall|a: DeployAction| r.count(a) == count_of(actions@, a),
        r.total() == actions.len(),
{
    let mut t = DeployTally::new();
    let mut i: usize = 0;
    while i < actions.len()
        invariant
            i <= actions.len() < u32::MAX,
            t.total() == i,
            forall|a: DeployAction| t.count(a) == count_of(actions@.take(i as int), a),
        decreases actions.len() - i,
    {
        assert(actions@.take(i + 1).drop_last() =~= actions@.take(i as int));
        t.record(actions[i]);
        i += 1;
    }
    assert(actions@.take(actions.len() as int) =~= actions@);
    t
}

/// The gene change a decision brings: a deployed strategy keeps its
/// profile, switched to the mentor personality when its score was
/// excellent (above 85%); a retired one falls back to a strict scholar; the
/// others change nothing.
pub fn gene_update(action: DeployAction, excellent: bool, gene: &GeneProfile) -> (r: Option<GeneProfile>)
    ensures
        match action {
            DeployAction::Deploy => r matches Some(g) && g.thinking@ == gene.thinking@ && g.behavior@ == gene.behavior@
                && g.risk_level@ == gene.risk_level@ && g.personality@ == (if excellent {
                "mentor"@
            } else {
                gene.personality@
            }),
            DeployAction::Retire => r matches Some(g) && g.personality@ == "scholar"@ && g.risk_level@ == "strict"@
                && g.thinking@ == gene.thinking@ && g.behavior@ == gene.behavior@,
            _ => r is None,
        },
{
    match action {
        DeployAction::Deploy => Some(GeneProfile {
            personality: if excellent {
                owned("mentor")
            } else {
                gene.personality.clone()
            },
            thinking: gene.thinking.clone(),
            risk_level: gene.risk_level.clone(),
            behavior: gene.behavior.clone(),
        }),
        DeployAction::Retire => Some(GeneProfile {
            personality: owned("scholar"),
            thinking: gene.thinking.clone(),
            risk_level: owned("strict"),
            behavior: gene.behavior.clone(),
        }),
        _ => None,
    }
}

/// Errors of the agent loop.
#[derive(Debug)]
pub enum AgentError {
    Llm(LlmError),
    Skill(SkillError),
    Proposal(String),
    Execution(String),
}

/// The task proposed without a language model, by the urgency the
/// student's mastery calls for: the skill to run, its strategy, and the
/// question to ask.
pub open spec fn fallback_plan_spec(p: Priority, concept: Seq<char>) -> (Seq<char>, Seq<char>, Seq<char>) {
    match p {
        Priority::Critical => ("tais-socratic-tutor"@, "scaffold"@, "让我们从基础开始：关于「"@ + concept + "」，你能说出它的定义吗？"@),
        Priority::High => ("tais-socratic-tutor"@, "clarification"@, "你提到「"@ + concept + "」——能用自己的话再解释一遍吗？"@),
        Priority::Medium => ("tais-skill-coach"@, "drill"@, "来做一道关于「"@ + concept + "」的练习题吧"@),
        Priority::Low => ("tais-resource-pusher"@, "feedback"@, "你已掌握「"@ + concept + "」的基础，来看看进阶资源"@),
    }
}

/// The task to propose when no language model answers.
pub fn fallback_plan(p: Priority, concept: &str) -> (r: (&'static str, &'static str, String))
    ensures
        r.0@ == fallback_plan_spec(p, concept@).0,
        r.1@ == fallback_plan_spec(p, concept@).1,
        r.2@ == fallback_plan_spec(p, concept@).2,
{
    proof {
        reveal_strlit("tais-socratic-tutor");
        reveal_strlit("tais-skill-coach");
        reveal_strlit("tais-resource-pusher");
        reveal_strlit("scaffold");
        reveal_strlit("clarification");
        reveal_strlit("drill");
        reveal_strlit("feedback");
    }
    match p {
        Priority::Critical => ("tais-socratic-tutor", "scaffold", between("让我们从基础开始：关于「", concept, "」，你能说出它的定义吗？")),
        Priority::High => ("tais-socratic-tutor", "clarification", between("你提到「", concept, "」——能用自己的话再解释一遍吗？")),
        Priority::Medium => ("tais-skill-coach", "drill", between("来做一道关于「", concept, "」的练习题吧")),
        Priority::Low => ("tais-resource-pusher", "feedback", between("你已掌握「", concept, "」的基础，来看看进阶资源")),
    }
}

fn between(a: &str, b: &str, c: &str) -> (r: String)
    ensures
        r@ == a@ + b@ + c@,
{
    let mut s = crate::text::concat(a, b);
    crate::text::push_str(&mut s, c);
    s
}

/// The pipeline a round takes.
#[derive(Debug, Clone, Copy, PartialEq, Eq, Structural)]
pub enum LoopPath {
    /// One LLM call: pick a skill and run it
    Fast,
    /// Propose, run, rate, deploy
    Quality,
}

impl LoopPath {
    /// The path's name: `fast` or `quality`.
    pub fn name(&self) -> (r: &'static str)
        ensures
            r@ == match self {
                LoopPath::Fast => "fast"@,
                LoopPath::Quality => "quality"@,
            },
    {
        proof {
            reveal_strlit("fast");
            reveal_strlit("quality");
        }
        match self {
            LoopPath::Fast => "fast",
            LoopPath::Quality => "quality",
        }
    }
}

/// Consecutive errors of one kind from which the loop stops taking the
/// fast path and asks for a change of strategy.
pub const ERROR_STREAK_LIMIT: u32 = 3;

/// Consecutive errors of one kind from which the fast path is no longer
/// taken.
pub const FAST_PATH_ERROR_LIMIT: u32 = 2;

/// Successful rounds needed before the fast path may be taken.
pub const FAST_PATH_MIN_SUCCESSES: u64 = 2;

/// Failed rounds from which a quality round asks for a change of strategy.
pub const FAILED_ROUNDS_LIMIT: u64 = 3;

/// The counters of the agent loop.
#[derive(Debug)]
pub struct LoopState {
    pub status: LoopStatus,
    pub iteration: u64,
    pub total_rounds: u64,
    pub successful_rounds: u64,
    pub failed_rounds: u64,
    pub deployed_strategies: u32,
    pub last_error: Option<String>,
    /// How many consecutive errors of the same kind
    pub consecutive_same_errors: u32,
    /// Path of the latest round
    pub active_path: LoopPath,
    /// Rounds that took the fast path
    pub fast_path_rounds: u64,
}

impl LoopState {
    /// The loop's invariant: every round either succeeded or failed, and
    /// fast rounds are rounds.
    pub open spec fn wf(&self) -> bool {
        &&& self.total_rounds == self.successful_rounds + self.failed_rounds
        &&& self.fast_path_rounds <= self.total_rounds
    }

    /// An idle loop that has run nothing (also what a reset gives).
    pub fn new() -> (r: LoopState)
        ensures
            r.wf(),
            r.status == LoopStatus::Idle,
            r.iteration == 0,
            r.total_rounds == 0,
            r.successful_rounds == 0,
            r.failed_rounds == 0,
            r.deployed_strategies == 0,
            r.last_error is None,
            r.consecutive_same_errors == 0,
            r.active_path == LoopPath::Quality,
            r.fast_path_rounds == 0,
    {
        LoopState {
            status: LoopStatus::Idle,
            iteration: 0,
            total_rounds: 0,
            successful_rounds: 0,
            failed_rounds: 0,
            deployed_strategies: 0,
            last_error: None,
            consecutive_same_errors: 0,
            active_path: LoopPath::Quality,
            fast_path_rounds: 0,
        }
    }

    /// Whether the fast path may be taken: the student's mastery is above
    /// the threshold (decided by the caller), fewer than two consecutive
    /// same errors, and at least two successful rounds so far.
    pub open spec fn fast_eligible(&self, mastery_above: bool) -> bool {
        mastery_above && self.consecutive_same_errors < FAST_PATH_ERROR_LIMIT
            && self.successful_rounds >= FAST_PATH_MIN_SUCCESSES
    }

    /// Starts a round: counts the iteration, marks the loop running and
    /// picks the path. A quality round is marked active at once; a fast one
    /// when it is recorded.
    pub fn begin_round(&mut self, mastery_above: bool) -> (path: LoopPath)
        requires
            old(self).iteration < u64::MAX,
        ensures
            path == if old(self).fast_eligible(mastery_above) { LoopPath::Fast } else { LoopPath::Quality },
            final(self).iteration == old(self).iteration + 1,
            final(self).status == LoopStatus::Running,
            final(self).active_path == if path == LoopPath::Quality { LoopPath::Quality } else { old(self).active_path },
            final(self).total_rounds == old(self).total_rounds,
            final(self).successful_rounds == old(self).successful_rounds,
            final(self).failed_rounds == old(self).failed_rounds,
            final(self).deployed_strategies == old(self).deployed_strategies,
            final(self).consecutive_same_errors == old(self).consecutive_same_errors,
            final(self).fast_path_rounds == old(self).fast_path_rounds,
            final(self).last_error == old(self).last_error,
    {
        self.iteration = self.iteration + 1;
        self.status = LoopStatus::Running;
        if mastery_above && self.consecutive_same_errors < FAST_PATH_ERROR_LIMIT
            && self.successful_rounds >= FAST_PATH_MIN_SUCCESSES {
            LoopPath::Fast
        } else {
            self.active_path = LoopPath::Quality;
            LoopPath::Quality
        }
    }

    /// Records how a round's skill run went: a success clears the error
    /// streak, a failure extends it.
    pub fn record_outcome(&mut self, path: LoopPath, success: bool)
        requires
            old(self).wf(),
            old(self).total_rounds < u64::MAX,
            old(self).consecutive_same_errors < u32::MAX,
        ensures
            final(self).wf(),
            final(self).total_rounds == old(self).total_rounds + 1,
            final(self).successful_rounds == old(self).successful_rounds + if success { 1int } else { 0int },
            final(self).failed_rounds == old(self).failed_rounds + if success { 0int } else { 1int },
            final(self).consecutive_same_errors == if success { 0 } else { old(self).consecutive_same_errors + 1 },
            final(self).fast_path_rounds == old(self).fast_path_rounds + if path == LoopPath::Fast { 1int } else { 0int },
            final(self).active_path == if path == LoopPath::Fast { LoopPath::Fast } else { old(self).active_path },
            final(self).iteration == old(self).iteration,
            final(self).status == old(self).status,
            final(self).deployed_strategies == old(self).deployed_strategies,
            final(self).last_error == old(self).last_error,
    {
        self.total_rounds = self.total_rounds + 1;
        if path == LoopPath::Fast {
            self.fast_path_rounds = self.fast_path_rounds + 1;
            self.active_path = LoopPath::Fast;
        }
        if success {
            self.successful_rounds = self.successful_rounds + 1;
            self.consecutive_same_errors = 0;
        } else {
            self.failed_rounds = self.failed_rounds + 1;
            self.consecutive_same_errors = self.consecutive_same_errors + 1;
        }
    }

    /// After a fast round: whether the error streak asks for a change of
    /// strategy (and a return to the quality path).
    pub fn streak_calls_for_switch(&self) -> (r: bool)
        ensures
            r == (self.consecutive_same_errors >= ERROR_STREAK_LIMIT),
    {
        self.consecutive_same_errors >= ERROR_STREAK_LIMIT
    }

    /// Before a quality round runs its skill: whether the failed rounds so
    /// far ask for a change of strategy.
    pub fn failures_call_for_switch(&self) -> (r: bool)
        ensures
            r == (self.failed_rounds >= FAILED_ROUNDS_LIMIT),
    {
        self.failed_rounds >= FAILED_ROUNDS_LIMIT
    }

    /// Counts a deployed strategy.
    pub fn record_deploy(&mut self)
        requires
            old(self).deployed_strategies < u32::MAX,
        ensures
            final(self).deployed_strategies == old(self).deployed_strategies + 1,
            final(self).iteration == old(self).iteration,
            final(self).status == old(self).status,
            final(self).total_rounds == old(self).total_rounds,
            final(self).successful_rounds == old(self).successful_rounds,
            final(self).failed_rounds == old(self).failed_rounds,
            final(self).consecutive_same_errors == old(self).consecutive_same_errors,
            final(self).active_path == old(self).active_path,
            final(self).fast_path_rounds == old(self).fast_path_rounds,
            final(self).last_error == old(self).last_error,
    {
        self.deployed_strategies = self.deployed_strategies + 1;
    }

    /// Ends a round: the loop is idle again.
    pub fn finish_round(&mut self)
        ensures
            final(self).status == LoopStatus::Idle,
            final(self).iteration == old(self).iteration,
            final(self).total_rounds == old(self).total_rounds,
            final(self).successful_rounds == old(self).successful_rounds,
            final(self).failed_rounds == old(self).failed_rounds,
            final(self).deployed_strategies == old(self).deployed_strategies,
            final(self).consecutive_same_errors == old(self).consecutive_same_errors,
            final(self).active_path == old(self).active_path,
            final(self).fast_path_rounds == old(self).fast_path_rounds,
            final(self).last_error == old(self).last_error,
    {
        self.status = LoopStatus::Idle;
    }
}

/// The working-memory block for this round's prompt: the checkpoint's
/// injection when there is a checkpoint with key information, else empty.
pub fn checkpoint_injection(cp: &Option<WorkingCheckpoint>) -> (r: String)
    ensures
        match cp {
            Some(c) => if c.key_info@.len() > 0 {
                r@ == crate::checkpoint::injection_spec(
                    c.key_info@,
                    c.passed_sessions,
                    match c.related_sop {
                        Some(s) => Some(s@),
                        None => None,
                    },
                )
            } else {
                r@.len() == 0
            },
            None => r@.len() == 0,
        },
{
    match cp {
        Some(c) => {
            if c.is_empty() {
                String::new()
            } else {
                c.to_prompt_injection()
            }
        },
        None => String::new(),
    }
}

/// Sets the working checkpoint: an existing one gets the new key
/// information (and the SOP when one is given); otherwise a new one is made.
pub fn update_checkpoint(cp: &mut Option<WorkingCheckpoint>, key_info: &str, related_sop: Option<&str>)
    ensures
        *final(cp) matches Some(c) && c.key_info@ == key_info@ && c.passed_sessions == 0 && match related_sop {
            Some(s) => c.related_sop matches Some(x) && x@ == s@,
            None => c.related_sop == match *old(cp) {
                Some(o) => o.related_sop,
                None => None,
            },
        },
{
    match cp {
        Some(existing) => {
            existing.update(key_info);
            match related_sop {
                Some(s) => {
                    existing.related_sop = Some(crate::text::owned(s));
                },
                None => {},
            }
        },
        None => {
            let mut fresh = WorkingCheckpoint::new(key_info);
            match related_sop {
                Some(s) => {
                    fresh = fresh.with_sop(s);
                },
                None => {},
            }
            *cp = Some(fresh);
        },
    }
}

/// How many sessions a checkpoint has passed after one more round, or
/// `None` when it is then stale and dropped.
pub open spec fn advanced(passed: u32) -> Option<u32> {
    let p: u32 = if passed == u32::MAX { u32::MAX } else { (passed + 1) as u32 };
    if p > 5 {
        None
    } else {
        Some(p)
    }
}

/// Advances the checkpoint after a round: one more session passed, and
/// dropped once stale.
pub fn advance_checkpoint(cp: &mut Option<WorkingCheckpoint>)
    ensures
        match *old(cp) {
            Some(o) => match advanced(o.passed_sessions) {
                Some(p) => *final(cp) matches Some(c) && c.passed_sessions == p && c.key_info == o.key_info
                    && c.related_sop == o.related_sop,
                None => *final(cp) is None,
            },
            None => *final(cp) is None,
        },
{
    let stale = match cp {
        Some(c) => {
            c.increment_passed();
            c.is_stale()
        },
        None => false,
    };
    if stale {
        *cp = None;
    }
}

/// The passed-session count after `n` rounds, starting from `passed`
/// (`None` once the checkpoint is dropped).
pub open spec fn advanced_n(passed: u32, n: nat) -> Option<u32>
    decreases n,
{
    if n == 0 {
        Some(passed)
    } else {
        match advanced_n(passed, (n - 1) as nat) {
            Some(p) => advanced(p),
            None => None,
        }
    }
}

/// A fresh checkpoint lives through five more rounds and is dropped after
/// the sixth.
pub proof fn law_checkpoint_lifetime()
    ensures
        advanced_n(0, 5) == Some(5u32),
        advanced_n(0, 6) is None,
        forall|k: nat| 6 <= k ==> #[trigger] advanced_n(0, k) is None,
{
    reveal_with_fuel(advanced_n, 7);
    assert forall|k: nat| 6 <= k implies #[trigger] advanced_n(0, k) is None by {
        lemma_dropped_stays_dropped(k);
    }
}

proof fn lemma_dropped_stays_dropped(k: nat)
    requires
        6 <= k,
    ensures
        advanced_n(0, k) is None,
    decreases k,
{
    reveal_with_fuel(advanced_n, 7);
    if k > 6 {
        lemma_dropped_stays_dropped((k - 1) as nat);
    }
}

/// Once the loop has taken the fast path, its history holds at least two
/// successes and no streak of three errors; a failed round never clears
/// the streak, and a success always does.
pub proof fn law_fast_path_guard(s: LoopState, mastery_above: bool)
    ensures
        s.fast_eligible(mastery_above) ==> s.successful_rounds >= 2 && s.consecutive_same_errors < 3,
        !mastery_above ==> !s.fast_eligible(mastery_above),
{
}

} // verus!
