//! Workflow generation: a teaching goal becomes a chain of nodes, one per
//! node template of the goal's teaching mode in phase order, ending with
//! the teacher's review.
//!
//! Thresholds of human-in-the-loop triggers are held in hundredths
//! (`70` stands for a confidence of 0.7).

use vstd::prelude::*;
use crate::goal::{
    goal_level_gene, level_gene, GeneProfile, HitlAction, StudentLevel, TeachingGoal, TeachingMode,
};
use crate::lines::{replace_all, replaced};
use crate::platform::{is_uuid_text, new_uuid};
use crate::text::{
    chars_of, dec, decimal, lowercase, owned, owned_all, push_str, str_views, string_from_chars, to_lowercase,
    views,
};

verus! {

/// When a human-in-the-loop trigger fires.
#[derive(Debug, Clone, Copy, PartialEq, Eq, Structural)]
pub enum HitlCondition {
    /// The agent's confidence is below this many hundredths
    ConfidenceBelow(u32),
    /// No progress after this many rounds
    NoProgressAfter(u32),
    /// The share of students making one error is above this many hundredths
    CommonErrorAbove(u32),
}

/// A human-in-the-loop trigger: its condition and what then happens.
#[derive(Debug, Clone, Copy, PartialEq, Eq, Structural)]
pub struct HitlTrigger {
    pub condition: HitlCondition,
    pub action: HitlAction,
}

/// A reusable node template for workflow generation.
#[derive(Debug)]
pub struct NodeTemplate {
    pub mode: TeachingMode,
    /// 0 = before class, 1 = during, 2 = after, 3 = review
    pub phase: u32,
    pub name: String,
    pub default_agent: Vec<String>,
    pub required_tools: Vec<String>,
    pub has_hitl: bool,
    pub default_hitl: Option<HitlTrigger>,
    pub can_skip: bool,
}

/// The mathematical content of a `NodeTemplate`.
pub struct TemplateView {
    pub mode: TeachingMode,
    pub phase: u32,
    pub name: Seq<char>,
    pub agents: Seq<Seq<char>>,
    pub tools: Seq<Seq<char>>,
    pub has_hitl: bool,
    pub hitl: Option<HitlTrigger>,
    pub can_skip: bool,
}

impl View for NodeTemplate {
    type V = TemplateView;

    open spec fn view(&self) -> TemplateView {
        TemplateView {
            mode: self.mode,
            phase: self.phase,
            name: self.name@,
            agents: views(self.default_agent@),
            tools: views(self.required_tools@),
            has_hitl: self.has_hitl,
            hitl: self.default_hitl,
            can_skip: self.can_skip,
        }
    }
}

/// What a node is given to work on.
#[derive(Debug)]
pub enum NodeInput {
    /// The goal's concept, level and mode
    Goal { concept: String, level: StudentLevel, mode: TeachingMode },
    /// The teacher reviews the report
    ReviewReport,
}

/// The mathematical content of a `NodeInput`.
pub enum InputView {
    Goal { concept: Seq<char>, level: StudentLevel, mode: TeachingMode },
    ReviewReport,
}

impl View for NodeInput {
    type V = InputView;

    open spec fn view(&self) -> InputView {
        match self {
            NodeInput::Goal { concept, level, mode } => InputView::Goal { concept: concept@, level: *level, mode: *mode },
            NodeInput::ReviewReport => InputView::ReviewReport,
        }
    }
}

/// A node of a workflow.
#[derive(Debug)]
pub struct WorkflowNode {
    pub id: String,
    pub name: String,
    /// Which skills to invoke
    pub agent: Vec<String>,
    /// Which gene capsules to inject
    pub gene: Vec<String>,
    /// External tools needed
    pub mcp_tools: Vec<String>,
    pub input: NodeInput,
    pub hitl_trigger: Option<HitlTrigger>,
}

/// The mathematical content of a `WorkflowNode`.
pub struct NodeView {
    pub id: Seq<char>,
    pub name: Seq<char>,
    pub agent: Seq<Seq<char>>,
    pub gene: Seq<Seq<char>>,
    pub tools: Seq<Seq<char>>,
    pub input: InputView,
    pub hitl: Option<HitlTrigger>,
}

impl View for WorkflowNode {
    type V = NodeView;

    open spec fn view(&self) -> NodeView {
        NodeView {
            id: self.id@,
            name: self.name@,
            agent: views(self.agent@),
            gene: views(self.gene@),
            tools: views(self.mcp_tools@),
            input: self.input@,
            hitl: self.hitl_trigger,
        }
    }
}

/// What a node's output tells its human-in-the-loop check. The output's
/// confidence and error rate are fractions; whether they pass the
/// trigger's threshold (in hundredths) is compared by the caller.
#[derive(Debug, Clone, Copy)]
pub struct OutputFacts {
    pub confidence_below: bool,
    pub progress_rounds: Option<u64>,
    pub error_rate_above: bool,
}

/// Whether a condition fires on a node's output: low confidence or a high
/// error rate as the caller compared them, or at least the condition's
/// rounds without progress.
pub open spec fn condition_fires(c: HitlCondition, f: OutputFacts) -> bool {
    match c {
        HitlCondition::ConfidenceBelow(_) => f.confidence_below,
        HitlCondition::NoProgressAfter(rounds) => f.progress_rounds matches Some(r) && r >= rounds,
        HitlCondition::CommonErrorAbove(_) => f.error_rate_above,
    }
}

impl WorkflowNode {
    /// The skill that runs the node: its first agent, or none (the empty
    /// name).
    pub fn dispatch_agent(&self) -> (r: String)
        ensures
            r@ == if self@.agent.len() > 0 {
                self@.agent[0]
            } else {
                Seq::<char>::empty()
            },
    {
        if self.agent.len() > 0 {
            self.agent[0].clone()
        } else {
            String::new()
        }
    }

    /// Whether the node's output calls for the teacher: the node has a
    /// trigger and its condition fires.
    pub fn hitl_due(&self, f: &OutputFacts) -> (r: bool)
        ensures
            r == (self.hitl_trigger matches Some(t) && condition_fires(t.condition, *f)),
    {
        match self.hitl_trigger {
            Some(t) => match t.condition {
                HitlCondition::ConfidenceBelow(_) => f.confidence_below,
                HitlCondition::NoProgressAfter(rounds) => match f.progress_rounds {
                    Some(r) => r >= rounds as u64,
                    None => false,
                },
                HitlCondition::CommonErrorAbove(_) => f.error_rate_above,
            },
            None => false,
        }
    }
}

/// A generated workflow: nodes in order, each linked to the next.
#[derive(Debug)]
pub struct Workflow {
    pub id: String,
    pub goal: TeachingGoal,
    pub nodes: Vec<WorkflowNode>,
    /// (from node id, to node id)
    pub edges: Vec<(String, String)>,
    pub entry: String,
    pub gene_profile: GeneProfile,
}

/// The views of a list of templates.
pub open spec fn template_views(ts: Seq<NodeTemplate>) -> Seq<TemplateView> {
    ts.map_values(|t: NodeTemplate| t@)
}

/// The views of a list of nodes.
pub open spec fn node_views(ns: Seq<WorkflowNode>) -> Seq<NodeView> {
    ns.map_values(|n: WorkflowNode| n@)
}

/// The templates of one teaching mode, in order.
pub open spec fn of_mode(ts: Seq<TemplateView>, m: TeachingMode) -> Seq<TemplateView>
    decreases ts.len(),
{
    if ts.len() == 0 {
        Seq::empty()
    } else if ts.last().mode == m {
        of_mode(ts.drop_last(), m).push(ts.last())
    } else {
        of_mode(ts.drop_last(), m)
    }
}

/// `t` placed after the last template, counted from the end, whose phase
/// is not later.
pub open spec fn insert_by_phase(r: Seq<TemplateView>, t: TemplateView) -> Seq<TemplateView>
    decreases r.len(),
{
    if r.len() == 0 {
        seq![t]
    } else if r.last().phase <= t.phase {
        r.push(t)
    } else {
        insert_by_phase(r.drop_last(), t).push(r.last())
    }
}

/// Templates in phase order; templates of one phase keep their order.
pub open spec fn by_phase(ts: Seq<TemplateView>) -> Seq<TemplateView>
    decreases ts.len(),
{
    if ts.len() == 0 {
        Seq::empty()
    } else {
        insert_by_phase(by_phase(ts.drop_last()), ts.last())
    }
}

/// The id of the `i`-th node: its name lowercased, spaces made
/// underscores, then `_` and the position.
pub open spec fn node_id(name: Seq<char>, i: nat) -> Seq<char> {
    replaced(lowercase(name), " "@, "_"@) + "_"@ + dec(i)
}

/// The node made from the `i`-th template for a goal.
pub open spec fn template_node(
    t: TemplateView,
    i: nat,
    concept: Seq<char>,
    level: StudentLevel,
    mode: TeachingMode,
) -> NodeView {
    NodeView {
        id: node_id(t.name, i),
        name: t.name,
        agent: t.agents,
        gene: seq![level_gene(level)],
        tools: t.tools,
        input: InputView::Goal { concept: concept, level: level, mode: mode },
        hitl: if t.has_hitl { t.hitl } else { None },
    }
}

/// The teacher's review, always last: it always escalates to the teacher.
pub open spec fn review_node() -> NodeView {
    NodeView {
        id: "teacher_review"@,
        name: "教师审查"@,
        agent: seq!["tais-workflow"@],
        gene: seq!["gene-scholar"@],
        tools: Seq::empty(),
        input: InputView::ReviewReport,
        hitl: Some(HitlTrigger { condition: HitlCondition::ConfidenceBelow(100), action: HitlAction::EscalateToTeacher }),
    }
}

/// The nodes of a workflow made from templates already in order.
pub open spec fn plan_nodes(
    ts: Seq<TemplateView>,
    concept: Seq<char>,
    level: StudentLevel,
    mode: TeachingMode,
) -> Seq<NodeView> {
    Seq::new(ts.len(), |i: int| template_node(ts[i], i as nat, concept, level, mode)).push(review_node())
}

/// Each node linked to the next.
pub open spec fn chain(ns: Seq<NodeView>) -> Seq<(Seq<char>, Seq<char>)> {
    if ns.len() == 0 {
        Seq::empty()
    } else {
        Seq::new((ns.len() - 1) as nat, |i: int| (ns[i].id, ns[i + 1].id))
    }
}

/// The views of a list of edges.
pub open spec fn edge_views(es: Seq<(String, String)>) -> Seq<(Seq<char>, Seq<char>)> {
    es.map_values(|e: (String, String)| (e.0@, e.1@))
}

proof fn lemma_insert_phase_at(r: Seq<TemplateView>, t: TemplateView, j: int)
    requires
        0 <= j <= r.len(),
        j == 0 || r[j - 1].phase <= t.phase,
        forall|m: int| j <= m < r.len() ==> (#[trigger] r[m]).phase > t.phase,
    ensures
        insert_by_phase(r, t) == r.insert(j, t),
    decreases r.len(),
{
    if r.len() == 0 {
        assert(r.insert(j, t) =~= seq![t]);
    } else if j == r.len() {
        assert(r.insert(j, t) =~= r.push(t));
    } else {
        assert(r[r.len() - 1].phase > t.phase);
        lemma_insert_phase_at(r.drop_last(), t, j);
        assert(r.insert(j, t) =~= r.drop_last().insert(j, t).push(r.last()));
    }
}

/// Phases never decrease along the sequence.
pub open spec fn phase_ordered(s: Seq<TemplateView>) -> bool {
    forall|i: int, j: int| 0 <= i < j < s.len() ==> (#[trigger] s[i]).phase <= (#[trigger] s[j]).phase
}

proof fn lemma_insert_phase_bounded(r: Seq<TemplateView>, t: TemplateView, b: u32)
    requires
        forall|i: int| 0 <= i < r.len() ==> (#[trigger] r[i]).phase <= b,
        t.phase <= b,
    ensures
        forall|i: int| 0 <= i < insert_by_phase(r, t).len() ==> (#[trigger] insert_by_phase(r, t)[i]).phase <= b,
        insert_by_phase(r, t).len() == r.len() + 1,
    decreases r.len(),
{
    if r.len() > 0 && r.last().phase > t.phase {
        lemma_insert_phase_bounded(r.drop_last(), t, b);
    }
}

proof fn lemma_insert_phase_ordered(r: Seq<TemplateView>, t: TemplateView)
    requires
        phase_ordered(r),
    ensures
        phase_ordered(insert_by_phase(r, t)),
        insert_by_phase(r, t).len() == r.len() + 1,
    decreases r.len(),
{
    if r.len() == 0 {
    } else if r.last().phase <= t.phase {
        assert forall|i: int, j: int| 0 <= i < j < r.push(t).len() implies (#[trigger] r.push(t)[i]).phase <= (
        #[trigger] r.push(t)[j]).phase by {
            if j == r.len() {
                if i < r.len() - 1 {
                    assert(r[i].phase <= r[r.len() - 1].phase);
                }
            } else {
                assert(r[i].phase <= r[j].phase);
            }
        }
    } else {
        let last = r.last();
        let rest = r.drop_last();
        assert forall|i: int, j: int| 0 <= i < j < rest.len() implies (#[trigger] rest[i]).phase <= (
        #[trigger] rest[j]).phase by {
            assert(r[i].phase <= r[j].phase);
        }
        lemma_insert_phase_ordered(rest, t);
        assert forall|i: int| 0 <= i < rest.len() implies (#[trigger] rest[i]).phase <= last.phase by {
            assert(r[i].phase <= r[r.len() - 1].phase);
        }
        lemma_insert_phase_bounded(rest, t, last.phase);
        let q = insert_by_phase(rest, t);
        assert forall|i: int, j: int| 0 <= i < j < q.push(last).len() implies (#[trigger] q.push(last)[i]).phase <= (
        #[trigger] q.push(last)[j]).phase by {
            if j == q.len() {
                assert(q[i].phase <= last.phase);
            } else {
                assert(q[i].phase <= q[j].phase);
            }
        }
    }
}

/// A workflow's templates come in phase order (before class, during,
/// after, review), and none is lost or added: the plan holds as many
/// templates as the mode has.
pub proof fn law_plan_in_phase_order(ts: Seq<TemplateView>)
    ensures
        phase_ordered(by_phase(ts)),
        by_phase(ts).len() == ts.len(),
    decreases ts.len(),
{
    if ts.len() > 0 {
        law_plan_in_phase_order(ts.drop_last());
        lemma_insert_phase_ordered(by_phase(ts.drop_last()), ts.last());
    }
}

/// A workflow is a single path: its node count is one more than its
/// templates, every node but the last links to the next, and the last is
/// the teacher's review.
pub proof fn law_workflow_is_a_path(
    ts: Seq<TemplateView>,
    concept: Seq<char>,
    level: StudentLevel,
    mode: TeachingMode,
)
    ensures
        ({
            let ns = plan_nodes(ts, concept, level, mode);
            &&& ns.len() == ts.len() + 1
            &&& ns.last() == review_node()
            &&& chain(ns).len() == ts.len()
            &&& forall|i: int| 0 <= i < ts.len() ==> #[trigger] chain(ns)[i] == (ns[i].id, ns[i + 1].id)
        }),
{
}

/// The views of the templates picked by a list of indices.
pub open spec fn picked(ts: Seq<TemplateView>, ix: Seq<usize>) -> Seq<TemplateView> {
    ix.map_values(|k: usize| ts[k as int])
}

/// Indices of the templates of mode `m`, in phase order (stable).
fn plan_order(templates: &Vec<NodeTemplate>, m: TeachingMode) -> (ix: Vec<usize>)
    ensures
        forall|k: int| 0 <= k < ix@.len() ==> (#[trigger] ix@[k]) < templates@.len(),
        picked(template_views(templates@), ix@) == by_phase(of_mode(template_views(templates@), m)),
{
    let ghost tv = template_views(templates@);
    let mut ix: Vec<usize> = Vec::new();
    let mut i: usize = 0;
    while i < templates.len()
        invariant
            i <= templates.len(),
            tv == template_views(templates@),
            forall|k: int| 0 <= k < ix@.len() ==> (#[trigger] ix@[k]) < templates@.len(),
            picked(tv, ix@) == by_phase(of_mode(tv.take(i as int), m)),
        decreases templates.len() - i,
    {
        proof {
            assert(tv.take(i + 1).drop_last() =~= tv.take(i as int));
            assert(tv.take(i + 1).last() == tv[i as int]);
        }
        if templates[i].mode == m {
            let ph = templates[i].phase;
            let mut j: usize = ix.len();
            while j > 0 && templates[ix[j - 1]].phase > ph
                invariant
                    j <= ix.len(),
                    forall|k: int| 0 <= k < ix@.len() ==> (#[trigger] ix@[k]) < templates@.len(),
                    ph == tv[i as int].phase,
                    tv == template_views(templates@),
                    i < templates.len(),
                    forall|q: int| j <= q < ix@.len() ==> (#[trigger] picked(tv, ix@)[q]).phase > ph,
                decreases j,
            {
                j = j - 1;
            }
            proof {
                let pv = picked(tv, ix@);
                assert(j == 0 || pv[j - 1].phase <= ph);
                lemma_insert_phase_at(pv, tv[i as int], j as int);
                let om = of_mode(tv.take(i as int), m);
                assert(of_mode(tv.take(i + 1), m) == om.push(tv[i as int]));
                assert(om.push(tv[i as int]).drop_last() =~= om);
                assert(by_phase(om.push(tv[i as int])) == insert_by_phase(by_phase(om), tv[i as int]));
            }
            let ghost before = ix@;
            ix.insert(j, i);
            proof {
                assert(picked(tv, ix@) =~= picked(tv, before).insert(j as int, tv[i as int]));
            }
        }
        else {
            proof {
                assert(of_mode(tv.take(i + 1), m) == of_mode(tv.take(i as int), m));
            }
        }
        i = i + 1;
    }
    proof {
        assert(tv.take(templates.len() as int) =~= tv);
    }
    ix
}

/// The id of the node made from template `name` at position `i`.
fn make_node_id(name: &str, i: usize) -> (r: String)
    ensures
        r@ == node_id(name@, i as nat),
{
    let lower = to_lowercase(name);
    let spaced = replace_all(&chars_of(lower.as_str()), &chars_of(" "), &chars_of("_"));
    let mut id = string_from_chars(spaced.as_slice());
    push_str(&mut id, "_");
    push_str(&mut id, decimal(i as u64).as_str());
    id
}

fn copy_strings(v: &Vec<String>) -> (r: Vec<String>)
    ensures
        views(r@) == views(v@),
{
    let mut out: Vec<String> = Vec::new();
    let mut i: usize = 0;
    while i < v.len()
        invariant
            i <= v.len(),
            views(out@) == views(v@).take(i as int),
        decreases v.len() - i,
    {
        let ghost before = views(out@);
        out.push(v[i].clone());
        assert(views(out@) =~= before.push(v@[i as int]@));
        assert(views(v@).take(i + 1) =~= views(v@).take(i as int).push(v@[i as int]@));
        i = i + 1;
    }
    assert(views(v@).take(v.len() as int) =~= views(v@));
    out
}

/// The workflow a teaching goal gives with these templates: the
/// templates of the goal's mode in phase order, each linked to the next,
/// then the teacher's review. The workflow gets a fresh random id.
pub fn generate_with(templates: &Vec<NodeTemplate>, goal: TeachingGoal) -> (w: Workflow)
    ensures
        is_uuid_text(w.id@),
        w.goal == goal,
        node_views(w.nodes@) == plan_nodes(
            by_phase(of_mode(template_views(templates@), goal.mode)),
            goal.concept@,
            goal.target_level,
            goal.mode,
        ),
        edge_views(w.edges@) == chain(node_views(w.nodes@)),
        w.entry@ == node_views(w.nodes@)[0].id,
        w.gene_profile.personality@ == "scholar"@,
        w.gene_profile.thinking@ == "first_principles"@,
        w.gene_profile.risk_level@ == "strict"@,
        w.gene_profile.behavior@ == "precise"@,
{
    let ghost tv = template_views(templates@);
    let ix = plan_order(templates, goal.mode);
    let ghost plan = picked(tv, ix@);
    let ghost want = plan_nodes(plan, goal.concept@, goal.target_level, goal.mode);
    let mut nodes: Vec<WorkflowNode> = Vec::new();
    let mut edges: Vec<(String, String)> = Vec::new();
    let mut k: usize = 0;
    proof {
        assert(node_views(nodes@) =~= want.take(0));
        assert(edge_views(edges@) =~= chain(want.take(0)));
    }
    while k < ix.len()
        invariant
            k <= ix.len(),
            tv == template_views(templates@),
            plan == picked(tv, ix@),
            want == plan_nodes(plan, goal.concept@, goal.target_level, goal.mode),
            forall|q: int| 0 <= q < ix@.len() ==> (#[trigger] ix@[q]) < templates@.len(),
            node_views(nodes@) == want.take(k as int),
            edge_views(edges@) == chain(want.take(k as int)),
        decreases ix.len() - k,
    {
        let t = &templates[ix[k]];
        proof {
            assert(plan[k as int] == tv[ix@[k as int] as int]);
            assert(tv[ix@[k as int] as int] == t@);
        }
        let id = make_node_id(t.name.as_str(), k);
        let node = WorkflowNode {
            id: id,
            name: t.name.clone(),
            agent: copy_strings(&t.default_agent),
            gene: vec![goal_level_gene(&goal)],
            mcp_tools: copy_strings(&t.required_tools),
            input: NodeInput::Goal { concept: goal.concept.clone(), level: goal.target_level, mode: goal.mode },
            hitl_trigger: if t.has_hitl {
                t.default_hitl
            } else {
                None
            },
        };
        let ghost nv = node@;
        proof {
            assert(node@.gene =~= seq![level_gene(goal.target_level)]);
            assert(nv == want[k as int]);
        }
        let ghost before_e = edge_views(edges@);
        if k > 0 {
            edges.push((nodes[k - 1].id.clone(), node.id.clone()));
            proof {
                assert(node_views(nodes@)[k - 1] == want[k - 1]);
                assert(edge_views(edges@) =~= before_e.push((want[k - 1].id, want[k as int].id)));
            }
        }
        let ghost before_n = node_views(nodes@);
        nodes.push(node);
        proof {
            assert(node_views(nodes@) =~= before_n.push(nv));
            assert(want.take(k + 1) =~= want.take(k as int).push(want[k as int]));
            assert(chain(want.take(k + 1)) =~= if k == 0 {
                Seq::empty()
            } else {
                chain(want.take(k as int)).push((want[k - 1].id, want[k as int].id))
            });
        }
        k = k + 1;
    }
    let review = WorkflowNode {
        id: owned("teacher_review"),
        name: owned("教师审查"),
        agent: vec![owned("tais-workflow")],
        gene: vec![owned("gene-scholar")],
        mcp_tools: Vec::new(),
        input: NodeInput::ReviewReport,
        hitl_trigger: Some(HitlTrigger { condition: HitlCondition::ConfidenceBelow(100), action: HitlAction::EscalateToTeacher }),
    };
    let ghost rv = review@;
    proof {
        assert(rv.agent =~= seq!["tais-workflow"@]);
        assert(rv.gene =~= seq!["gene-scholar"@]);
        assert(rv.tools =~= Seq::<Seq<char>>::empty());
        assert(rv == review_node());
        assert(want.len() == ix.len() + 1);
        assert(want[ix.len() as int] == review_node());
    }
    let ghost before_e = edge_views(edges@);
    if k > 0 {
        edges.push((nodes[k - 1].id.clone(), review.id.clone()));
        proof {
            assert(node_views(nodes@)[k - 1] == want[k - 1]);
            assert(edge_views(edges@) =~= before_e.push((want[k - 1].id, want[k as int].id)));
        }
    }
    let ghost before_n = node_views(nodes@);
    nodes.push(review);
    proof {
        assert(node_views(nodes@) =~= before_n.push(rv));
        assert(want.take(k as int) =~= want.drop_last());
        assert(want.drop_last().push(want.last()) =~= want);
        assert(node_views(nodes@) =~= want);
        assert(chain(want) =~= if k == 0 {
            Seq::empty()
        } else {
            chain(want.take(k as int)).push((want[k - 1].id, want[k as int].id))
        });
    }
    let entry = nodes[0].id.clone();
    proof {
        assert(nodes@.len() > 0);
        assert(node_views(nodes@)[0] == nodes@[0]@);
        assert(entry@ == nodes@[0].id@);
    }
    Workflow { id: new_uuid(), goal, nodes, edges, entry, gene_profile: GeneProfile::default() }
}

/// Creates and runs teaching workflows from its node templates.
#[derive(Debug)]
pub struct Orchestrator {
    templates: Vec<NodeTemplate>,
}

impl Orchestrator {
    /// The templates the orchestrator generates from.
    pub closed spec fn templates(&self) -> Seq<TemplateView> {
        template_views(self.templates@)
    }

    /// An orchestrator with the default templates.
    pub fn new() -> (r: Orchestrator)
        ensures
            r.templates() == default_template_views(),
    {
        Orchestrator { templates: default_templates() }
    }

    /// The workflow a teaching goal gives (see `generate_with`).
    pub fn generate(&self, goal: TeachingGoal) -> (w: Workflow)
        ensures
            is_uuid_text(w.id@),
            w.goal == goal,
            node_views(w.nodes@) == plan_nodes(
                by_phase(of_mode(self.templates(), goal.mode)),
                goal.concept@,
                goal.target_level,
                goal.mode,
            ),
            edge_views(w.edges@) == chain(node_views(w.nodes@)),
            w.entry@ == node_views(w.nodes@)[0].id,
            w.gene_profile.personality@ == "scholar"@,
            w.gene_profile.thinking@ == "first_principles"@,
            w.gene_profile.risk_level@ == "strict"@,
            w.gene_profile.behavior@ == "precise"@,
    {
        generate_with(&self.templates, goal)
    }
}

/// The view of one default template.
pub open spec fn tv(
    mode: TeachingMode,
    phase: u32,
    name: Seq<char>,
    agents: Seq<Seq<char>>,
    tools: Seq<Seq<char>>,
    hitl: Option<HitlTrigger>,
    can_skip: bool,
) -> TemplateView {
    TemplateView { mode, phase, name, agents, tools, has_hitl: hitl is Some, hitl, can_skip }
}

/// The default templates: five for inquiry-based lessons (diagnosis before
/// class; concept introduction and guided inquiry during; practice and
/// assessment after) and one for Socratic dialogue.
pub open spec fn default_template_views() -> Seq<TemplateView> {
    let ib = TeachingMode::InquiryBased;
    seq![
        tv(ib, 0, "课前诊断"@, seq!["tais-learning-analyst"@], seq!["oo-domain-model"@],
            Some(HitlTrigger { condition: HitlCondition::ConfidenceBelow(70), action: HitlAction::EscalateToTeacher }), false),
        tv(ib, 1, "概念导入"@, seq!["tais-socratic-tutor"@], Seq::empty(), None, true),
        tv(ib, 1, "探究引导"@, seq!["tais-socratic-tutor"@], seq!["physics-simulator"@],
            Some(HitlTrigger { condition: HitlCondition::NoProgressAfter(3), action: HitlAction::PauseAndNotify }), false),
        tv(ib, 2, "练习巩固"@, seq!["tais-skill-coach"@, "tais-resource-pusher"@], seq!["code-runner"@],
            Some(HitlTrigger { condition: HitlCondition::CommonErrorAbove(40), action: HitlAction::EscalateToTeacher }), false),
        tv(ib, 2, "课后评估"@, seq!["tais-learning-analyst"@], Seq::empty(), None, false),
        tv(TeachingMode::SocraticDialogue, 1, "苏格拉底追问"@, seq!["tais-socratic-tutor"@], Seq::empty(),
            Some(HitlTrigger { condition: HitlCondition::NoProgressAfter(3), action: HitlAction::PauseAndNotify }), false),
    ]
}

/// How many nodes the default templates give a workflow of a mode: its
/// templates and the teacher's review.
pub open spec fn default_node_count(m: TeachingMode) -> nat {
    match m {
        TeachingMode::InquiryBased => 6,
        TeachingMode::SocraticDialogue => 2,
        _ => 1,
    }
}

/// A workflow from the default templates has six nodes for an
/// inquiry-based lesson, two for a Socratic dialogue and only the teacher's
/// review otherwise, and it always ends with the review.
pub proof fn law_default_node_count(concept: Seq<char>, level: StudentLevel, mode: TeachingMode)
    ensures
        ({
            let ns = plan_nodes(by_phase(of_mode(default_template_views(), mode)), concept, level, mode);
            &&& ns.len() == default_node_count(mode)
            &&& ns.last() == review_node()
        }),
{
    let ts = default_template_views();
    law_plan_in_phase_order(of_mode(ts, mode));
    reveal_with_fuel(of_mode, 7);
    assert(ts.drop_last().drop_last().drop_last().drop_last().drop_last().drop_last() =~= Seq::<TemplateView>::empty());
    law_workflow_is_a_path(by_phase(of_mode(ts, mode)), concept, level, mode);
}

fn template(
    mode: TeachingMode,
    phase: u32,
    name: &str,
    agents: &[&str],
    tools: &[&str],
    hitl: Option<HitlTrigger>,
    can_skip: bool,
) -> (r: NodeTemplate)
    ensures
        r@ == tv(mode, phase, name@, str_views(agents@), str_views(tools@), hitl, can_skip),
{
    NodeTemplate {
        mode,
        phase,
        name: owned(name),
        default_agent: owned_all(agents),
        required_tools: owned_all(tools),
        has_hitl: hitl.is_some(),
        default_hitl: hitl,
        can_skip,
    }
}

/// The default node templates.
pub fn default_templates() -> (r: Vec<NodeTemplate>)
    ensures
        template_views(r@) == default_template_views(),
{
    let ib = TeachingMode::InquiryBased;
    let none: [&str; 0] = [];
    let analyst: [&str; 1] = ["tais-learning-analyst"];
    let tutor: [&str; 1] = ["tais-socratic-tutor"];
    let coaches: [&str; 2] = ["tais-skill-coach", "tais-resource-pusher"];
    let domain: [&str; 1] = ["oo-domain-model"];
    let simulator: [&str; 1] = ["physics-simulator"];
    let runner: [&str; 1] = ["code-runner"];
    proof {
        assert(str_views(none@) =~= Seq::<Seq<char>>::empty());
        assert(str_views(analyst@) =~= seq!["tais-learning-analyst"@]);
        assert(str_views(tutor@) =~= seq!["tais-socratic-tutor"@]);
        assert(str_views(coaches@) =~= seq!["tais-skill-coach"@, "tais-resource-pusher"@]);
        assert(str_views(domain@) =~= seq!["oo-domain-model"@]);
        assert(str_views(simulator@) =~= seq!["physics-simulator"@]);
        assert(str_views(runner@) =~= seq!["code-runner"@]);
    }
    let mut r: Vec<NodeTemplate> = Vec::new();
    r.push(template(ib, 0, "课前诊断", &analyst, &domain,
        Some(HitlTrigger { condition: HitlCondition::ConfidenceBelow(70), action: HitlAction::EscalateToTeacher }), false));
    r.push(template(ib, 1, "概念导入", &tutor, &none, None, true));
    r.push(template(ib, 1, "探究引导", &tutor, &simulator,
        Some(HitlTrigger { condition: HitlCondition::NoProgressAfter(3), action: HitlAction::PauseAndNotify }), false));
    r.push(template(ib, 2, "练习巩固", &coaches, &runner,
        Some(HitlTrigger { condition: HitlCondition::CommonErrorAbove(40), action: HitlAction::EscalateToTeacher }), false));
    r.push(template(ib, 2, "课后评估", &analyst, &none, None, false));
    r.push(template(TeachingMode::SocraticDialogue, 1, "苏格拉底追问", &tutor, &none,
        Some(HitlTrigger { condition: HitlCondition::NoProgressAfter(3), action: HitlAction::PauseAndNotify }), false));
    assert(template_views(r@) =~= default_template_views());
    r
}

} // verus!
