//! Kinds of habit capsules and what they do when they fire.

use vstd::prelude::*;
use crate::text::{concat, owned, str_eq};

verus! {

/// How a habit fires.
#[derive(Debug, Clone, Copy, PartialEq, Eq, Structural)]
pub enum TriggerType {
    /// Time-based (daily review)
    Periodic,
    /// Reacts to system events
    EventDriven,
    /// Gated on a condition
    Conditional,
}

/// What a habit does when it fires.
#[derive(Debug, Clone, Copy, PartialEq, Eq, Structural)]
pub enum HabitAction {
    /// Summarize today's decisions and error patterns
    SummarizeDecisions,
    /// Switch to a different teaching strategy
    SwitchStrategy,
    /// Confirm the student's understanding, summarize consensus
    ConfirmUnderstanding,
    /// Update logs and version notes
    UpdateLogs,
    /// Review the current state against history
    SelfReview,
    /// Run the mandatory safety checklist
    SafetyChecklist,
    /// Handshake protocol and task decomposition
    HandshakeAndDecompose,
}

impl HabitAction {
    /// What doing the action amounts to, as the habit log records it.
    pub fn result_text(&self) -> (r: &'static str)
        ensures
            r@ == action_text(*self),
    {
        proof {
            reveal_strlit("Generated daily review summary of decisions and error patterns");
            reveal_strlit("Switched teaching strategy due to repeated error pattern");
            reveal_strlit("Confirmed student understanding and summarized dialogue consensus");
            reveal_strlit("Updated changelog and version annotations for output changes");
            reveal_strlit("Performed self-review and compared current state against historical baselines");
            reveal_strlit("Executed mandatory safety checklist for high-risk operation");
            reveal_strlit("Performed multi-agent handshake and decomposed collaborative task");
        }
        match self {
            HabitAction::SummarizeDecisions => "Generated daily review summary of decisions and error patterns",
            HabitAction::SwitchStrategy => "Switched teaching strategy due to repeated error pattern",
            HabitAction::ConfirmUnderstanding => "Confirmed student understanding and summarized dialogue consensus",
            HabitAction::UpdateLogs => "Updated changelog and version annotations for output changes",
            HabitAction::SelfReview => "Performed self-review and compared current state against historical baselines",
            HabitAction::SafetyChecklist => "Executed mandatory safety checklist for high-risk operation",
            HabitAction::HandshakeAndDecompose => "Performed multi-agent handshake and decomposed collaborative task",
        }
    }
}

/// The log text of each action.
pub open spec fn action_text(a: HabitAction) -> Seq<char> {
    match a {
        HabitAction::SummarizeDecisions => "Generated daily review summary of decisions and error patterns"@,
        HabitAction::SwitchStrategy => "Switched teaching strategy due to repeated error pattern"@,
        HabitAction::ConfirmUnderstanding => "Confirmed student understanding and summarized dialogue consensus"@,
        HabitAction::UpdateLogs => "Updated changelog and version annotations for output changes"@,
        HabitAction::SelfReview => "Performed self-review and compared current state against historical baselines"@,
        HabitAction::SafetyChecklist => "Executed mandatory safety checklist for high-risk operation"@,
        HabitAction::HandshakeAndDecompose => "Performed multi-agent handshake and decomposed collaborative task"@,
    }
}

/// A habit's counts of fired and skipped triggers, and its current run of
/// successes.
#[derive(Debug, Clone, Copy, PartialEq, Eq, Structural)]
pub struct HabitTally {
    pub success_count: u32,
    pub failure_count: u32,
    pub streak: u32,
}

impl HabitTally {
    /// No triggers yet.
    pub fn new() -> (r: HabitTally)
        ensures
            r == (HabitTally { success_count: 0, failure_count: 0, streak: 0 }),
    {
        HabitTally { success_count: 0, failure_count: 0, streak: 0 }
    }

    /// Counts a trigger: a success extends the streak, a failure ends it
    /// (counts stop at `u32::MAX`).
    pub fn record(&mut self, success: bool)
        ensures
            success ==> final(self).success_count == sat_inc(old(self).success_count)
                && final(self).streak == sat_inc(old(self).streak)
                && final(self).failure_count == old(self).failure_count,
            !success ==> final(self).failure_count == sat_inc(old(self).failure_count)
                && final(self).streak == 0
                && final(self).success_count == old(self).success_count,
    {
        if success {
            self.success_count = self.success_count.saturating_add(1);
            self.streak = self.streak.saturating_add(1);
        } else {
            self.failure_count = self.failure_count.saturating_add(1);
            self.streak = 0;
        }
    }
}

/// `n + 1`, stopping at `u32::MAX`.
pub open spec fn sat_inc(n: u32) -> u32 {
    if n == u32::MAX {
        u32::MAX
    } else {
        (n + 1) as u32
    }
}

/// What a trigger's context tells a habit condition. Whether the composite
/// score is below the rule's threshold is a comparison of fractions, made
/// by the caller.
#[derive(Debug, Clone, Copy)]
pub struct TriggerFacts {
    /// The consecutive errors reported, if any
    pub consecutive_errors: Option<u64>,
    pub composite_below: bool,
    pub high_risk: bool,
    pub multi_agent: bool,
    pub output_changed: bool,
    pub dialogue_ended: bool,
    pub evolution_triggered: bool,
    /// A scheduled habit asked to run now
    pub force: bool,
}

/// The test a habit rule's condition makes.
#[derive(Debug, Clone, Copy, PartialEq, Eq, Structural)]
pub enum ConditionTest {
    Always,
    ErrorPattern { consecutive_errors: u32 },
    CompositeBelow,
    HighRiskOperation,
    MultiAgentMode,
    OutputChanged,
    DialogueEnded,
    EvolutionTriggered,
    ScheduledTime,
}

/// Whether a condition holds on a trigger's facts: an error pattern needs
/// at least its count of consecutive errors reported, a scheduled habit
/// runs only when forced, the others read their flag.
pub open spec fn condition_holds(c: ConditionTest, f: TriggerFacts) -> bool {
    match c {
        ConditionTest::Always => true,
        ConditionTest::ErrorPattern { consecutive_errors } => f.consecutive_errors matches Some(n) && n
            >= consecutive_errors,
        ConditionTest::CompositeBelow => f.composite_below,
        ConditionTest::HighRiskOperation => f.high_risk,
        ConditionTest::MultiAgentMode => f.multi_agent,
        ConditionTest::OutputChanged => f.output_changed,
        ConditionTest::DialogueEnded => f.dialogue_ended,
        ConditionTest::EvolutionTriggered => f.evolution_triggered,
        ConditionTest::ScheduledTime => f.force,
    }
}

/// Whether a habit's condition holds on a trigger's facts.
pub fn condition_met(c: ConditionTest, f: &TriggerFacts) -> (r: bool)
    ensures
        r == condition_holds(c, *f),
        c is Always ==> r,
        c matches ConditionTest::ErrorPattern { consecutive_errors } ==> (r <==> (f.consecutive_errors matches Some(
            n,
        ) && n >= consecutive_errors)),
        c is CompositeBelow ==> r == f.composite_below,
        c is HighRiskOperation ==> r == f.high_risk,
        c is MultiAgentMode ==> r == f.multi_agent,
        c is OutputChanged ==> r == f.output_changed,
        c is DialogueEnded ==> r == f.dialogue_ended,
        c is EvolutionTriggered ==> r == f.evolution_triggered,
        c is ScheduledTime ==> r == f.force,
{
    proof {
        law_condition_reads_its_fact(*f);
    }
    match c {
        ConditionTest::Always => true,
        ConditionTest::ErrorPattern { consecutive_errors } => match f.consecutive_errors {
            Some(n) => n >= consecutive_errors as u64,
            None => false,
        },
        ConditionTest::CompositeBelow => f.composite_below,
        ConditionTest::HighRiskOperation => f.high_risk,
        ConditionTest::MultiAgentMode => f.multi_agent,
        ConditionTest::OutputChanged => f.output_changed,
        ConditionTest::DialogueEnded => f.dialogue_ended,
        ConditionTest::EvolutionTriggered => f.evolution_triggered,
        ConditionTest::ScheduledTime => f.force,
    }
}

/// What a trigger's log records as its result: the action's text when the
/// condition held, else that it was skipped.
pub fn trigger_result(a: HabitAction, success: bool) -> (r: &'static str)
    ensures
        r@ == if success {
            action_text(a)
        } else {
            "condition not met — skipped"@
        },
{
    if success {
        a.result_text()
    } else {
        proof {
            reveal_strlit("condition not met — skipped");
        }
        "condition not met — skipped"
    }
}

/// Each condition reads its own fact: a dialogue-ended habit fires exactly
/// when the dialogue ended, an output-changed one when the output changed,
/// and so on; an error pattern needs at least its count of consecutive
/// errors; a scheduled habit fires only when forced; `Always` always.
pub proof fn law_condition_reads_its_fact(f: TriggerFacts)
    ensures
        condition_holds(ConditionTest::Always, f),
        forall|k: u32|
            #[trigger] condition_holds(ConditionTest::ErrorPattern { consecutive_errors: k }, f) <==> (
            f.consecutive_errors matches Some(n) && n >= k),
        condition_holds(ConditionTest::CompositeBelow, f) == f.composite_below,
        condition_holds(ConditionTest::HighRiskOperation, f) == f.high_risk,
        condition_holds(ConditionTest::MultiAgentMode, f) == f.multi_agent,
        condition_holds(ConditionTest::OutputChanged, f) == f.output_changed,
        condition_holds(ConditionTest::DialogueEnded, f) == f.dialogue_ended,
        condition_holds(ConditionTest::EvolutionTriggered, f) == f.evolution_triggered,
        condition_holds(ConditionTest::ScheduledTime, f) == f.force,
{
}

/// Index of the first rule whose id is `id`.
pub open spec fn rule_index(ids: Seq<Seq<char>>, id: Seq<char>) -> Option<int>
    decreases ids.len(),
{
    if ids.len() == 0 {
        None
    } else if ids[0] == id {
        Some(0)
    } else {
        match rule_index(ids.drop_first(), id) {
            Some(i) => Some(i + 1),
            None => None,
        }
    }
}

/// The position of the rule to trigger, or why there is none.
pub fn find_rule(rule_ids: &Vec<String>, rule_id: &str) -> (r: Result<usize, String>)
    ensures
        match rule_index(rule_ids@.map_values(|s: String| s@), rule_id@) {
            Some(i) => r == Ok::<usize, String>(i as usize),
            None => r matches Err(e) && e@ == "Habit rule not found: "@ + rule_id@,
        },
{
    let ghost ids = rule_ids@.map_values(|s: String| s@);
    let mut i: usize = 0;
    assert(ids.skip(0) =~= ids);
    assert(rule_index(ids, rule_id@) == match rule_index(ids.skip(0), rule_id@) {
        Some(k) => Some(k + 0),
        None => None::<int>,
    });
    while i < rule_ids.len()
        invariant
            i <= rule_ids.len(),
            ids == rule_ids@.map_values(|s: String| s@),
            rule_index(ids, rule_id@) == match rule_index(ids.skip(i as int), rule_id@) {
                Some(k) => Some(k + i),
                None => None::<int>,
            },
        decreases rule_ids.len() - i,
    {
        assert(ids.skip(i as int)[0] == rule_ids@[i as int]@);
        if str_eq(rule_ids[i].as_str(), rule_id) {
            return Ok(i);
        }
        assert(ids.skip(i as int).drop_first() =~= ids.skip(i + 1));
        i = i + 1;
    }
    assert(ids.skip(i as int) =~= Seq::<Seq<char>>::empty());
    Err(concat("Habit rule not found: ", rule_id))
}

/// Positions of the logs of `rule_id` (of every rule when `None`), in
/// order.
pub open spec fn log_positions(ids: Seq<Seq<char>>, rule_id: Option<Seq<char>>) -> Seq<int>
    decreases ids.len(),
{
    if ids.len() == 0 {
        Seq::empty()
    } else {
        let rest = log_positions(ids.drop_last(), rule_id);
        if rule_id matches Some(r) && ids.last() != r {
            rest
        } else {
            rest.push(ids.len() - 1)
        }
    }
}

/// The logs to show, most recent first, given each stored log's rule id
/// (stored oldest first): those of `rule_id` (all when `None`), only the
/// first `limit` when `limit` is positive and there are more.
pub fn select_logs(log_rules: &Vec<String>, rule_id: Option<&str>, limit: usize) -> (r: Vec<usize>)
    ensures
        ({
            let p = log_positions(log_rules@.map_values(|s: String| s@), opt_text(rule_id)).reverse();
            r@.map_values(|i: usize| i as int) == if limit > 0 && p.len() > limit {
                p.take(limit as int)
            } else {
                p
            }
        }),
{
    let ghost ids = log_rules@.map_values(|s: String| s@);
    let ghost want = opt_text(rule_id);
    let mut out: Vec<usize> = Vec::new();
    let mut i: usize = 0;
    while i < log_rules.len()
        invariant
            i <= log_rules.len(),
            ids == log_rules@.map_values(|s: String| s@),
            want == opt_text(rule_id),
            out@.map_values(|k: usize| k as int) == log_positions(ids.take(i as int), want),
        decreases log_rules.len() - i,
    {
        let keep = match rule_id {
            Some(r) => str_eq(log_rules[i].as_str(), r),
            None => true,
        };
        let ghost before = out@.map_values(|k: usize| k as int);
        proof {
            assert(ids.take(i + 1).drop_last() =~= ids.take(i as int));
            assert(ids.take(i + 1).last() == log_rules@[i as int]@);
        }
        if keep {
            out.push(i);
            assert(out@.map_values(|k: usize| k as int) =~= before.push(i as int));
        }
        i = i + 1;
    }
    assert(ids.take(log_rules.len() as int) =~= ids);
    let ghost fwd = out@.map_values(|k: usize| k as int);
    let ghost back = fwd.reverse();
    let mut rev: Vec<usize> = Vec::new();
    let mut j: usize = out.len();
    while j > 0
        invariant
            j <= out.len(),
            fwd == out@.map_values(|k: usize| k as int),
            back == fwd.reverse(),
            rev@.map_values(|k: usize| k as int) == back.take(out.len() - j),
        decreases j,
    {
        let ghost before = rev@.map_values(|k: usize| k as int);
        j = j - 1;
        rev.push(out[j]);
        assert(back.take(out.len() - j) =~= before.push(fwd[j as int]));
        assert(rev@.map_values(|k: usize| k as int) =~= before.push(fwd[j as int]));
    }
    assert(back.take(out.len() as int) =~= back);
    if limit > 0 && rev.len() > limit {
        let ghost all = rev@.map_values(|k: usize| k as int);
        rev.truncate(limit);
        assert(rev@.map_values(|k: usize| k as int) =~= all.take(limit as int));
    }
    rev
}

/// The view of an optional text.
pub open spec fn opt_text(o: Option<&str>) -> Option<Seq<char>> {
    match o {
        Some(x) => Some(x@),
        None => None,
    }
}

} // verus!
