//! The seven built-in teaching skills: what each is, the prompt it sends to
//! the language model, and (for the Socratic tutor) the answer it gives
//! when no model is available. The caller makes the model call.

use vstd::prelude::*;
use crate::skills::{SkillCategory, SkillInfo};
use crate::text::{owned, owned_all, push_str, str_eq, str_views};

verus! {

/// The view of a skill definition with one bind word, version `1.0.0`.
pub open spec fn builtin(name: Seq<char>, display: Seq<char>, desc: Seq<char>, cat: SkillCategory, bind: Seq<char>) -> crate::skills::SkillInfoView {
    crate::skills::SkillInfoView {
        name: name,
        display_name: display,
        version: "1.0.0"@,
        description: desc,
        category: cat,
        binds: seq![bind],
    }
}

fn define(name: &str, display: &str, desc: &str, cat: SkillCategory, bind: &str) -> (r: SkillInfo)
    ensures
        r@ == builtin(name@, display@, desc@, cat, bind@),
{
    let binds = [bind];
    let r = SkillInfo {
        name: owned(name),
        display_name: owned(display),
        version: owned("1.0.0"),
        description: owned(desc),
        category: cat,
        binds: owned_all(&binds),
    };
    proof {
        assert(str_views(binds@) =~= seq![bind@]);
    }
    r
}

/// The Socratic tutor: questions the student instead of answering.
pub struct SocraticTutor;

/// Orchestrates a lesson's nodes.
pub struct WorkflowOrchestrator;

/// Reads mastery and weak points from a conversation.
pub struct LearningAnalyst;

/// Recommends resources for weak points.
pub struct ResourcePusher;

/// Sets and grades exercises.
pub struct SkillCoach;

/// Analyses how a lesson went.
pub struct FeedbackCollector;

/// Proposes improvements to teaching strategy.
pub struct EvolutionSkill;

/// The opening question the tutor asks, by strategy, and how many
/// questions it holds.
pub open spec fn socratic_fallback_spec(query: Seq<char>, concept: Seq<char>, strategy: Seq<char>) -> (Seq<char>, u32) {
    if strategy == "clarification"@ {
        ("🤔 关于「"@ + concept + "」，你说「"@ + query + "」——能用更具体的例子说明吗？\n追问：如果不考虑现有知识，你会从哪个角度重新看待这个问题？"@, 2)
    } else if strategy == "counterexample"@ {
        ("🧐 你提到「"@ + query + "」。请考虑：如果条件反过来，结果还会一样吗？\n追问：什么情况下你的结论可能不成立？"@, 2)
    } else if strategy == "analogy"@ {
        ("💡 「"@ + query + "」让我想到一个类比……你能自己找一个生活中的例子来说明「"@ + concept + "」吗？\n追问：你的类比和原问题有什么本质区别？"@, 2)
    } else if strategy == "scaffold"@ {
        ("🪜 关于「"@ + concept + "」，拆开来看：\n1. 前提条件是什么？\n2. 核心机制是什么？\n3. 后果是什么？\n你先回答第一步。"@, 3)
    } else {
        ("🤔 你说「"@ + query + "」，换个角度——去掉术语，普通人怎样理解「"@ + concept + "」？"@, 1)
    }
}

/// The Socratic prompt for a student's question.
pub open spec fn socratic_prompt_spec(concept: Seq<char>, strategy: Seq<char>, context: Seq<char>, query: Seq<char>) -> Seq<char> {
    "学生正在学习「"@ + concept + "」，策略「"@ + strategy + "」。\n上下文："@ + context + "\n\n学生问题："@ + query
        + "\n\n请生成苏格拉底式追问（JSON）："@
}

/// The tutor's system prompt.
pub open spec fn socratic_system_prompt() -> Seq<char> {
    "你是一位苏格拉底式导师。永远不直接给答案，用追问引导学生自己发现。每次不超过3个追问。输出JSON：{\"content\":..., \"strategy\":..., \"question_count\":..., \"confidence\":..., \"progress_rounds\":..., \"error_rate\":...}"@
}

impl SocraticTutor {
    /// The skill's definition.
    pub fn info() -> (r: SkillInfo)
        ensures
            r@ == builtin("tais-socratic-tutor"@, "苏格拉底式导师"@, "通过反问引导而非直接给答案，培养学生独立思考能力"@, SkillCategory::Teaching, "socratic"@),
    {
        define("tais-socratic-tutor", "苏格拉底式导师", "通过反问引导而非直接给答案，培养学生独立思考能力", SkillCategory::Teaching, "socratic")
    }

    /// The system prompt the tutor sends: never give the answer, guide by
    /// at most three questions, answer in JSON.
    pub fn system_prompt() -> (r: &'static str)
        ensures
            r@ == socratic_system_prompt(),
    {
        "你是一位苏格拉底式导师。永远不直接给答案，用追问引导学生自己发现。每次不超过3个追问。输出JSON：{\"content\":..., \"strategy\":..., \"question_count\":..., \"confidence\":..., \"progress_rounds\":..., \"error_rate\":...}"
    }

    /// The prompt for one question of the student.
    pub fn prompt(concept: &str, strategy: &str, context: &str, query: &str) -> (r: String)
        ensures
            r@ == socratic_prompt_spec(concept@, strategy@, context@, query@),
    {
        let mut s = owned("学生正在学习「");
        push_str(&mut s, concept);
        push_str(&mut s, "」，策略「");
        push_str(&mut s, strategy);
        push_str(&mut s, "」。\n上下文：");
        push_str(&mut s, context);
        push_str(&mut s, "\n\n学生问题：");
        push_str(&mut s, query);
        push_str(&mut s, "\n\n请生成苏格拉底式追问（JSON）：");
        s
    }

    /// The tutor's answer without a model: a question shaped by the
    /// strategy, and how many questions it asks.
    pub fn fallback(query: &str, concept: &str, strategy: &str) -> (r: (String, u32))
        ensures
            r.0@ == socratic_fallback_spec(query@, concept@, strategy@).0,
            r.1 == socratic_fallback_spec(query@, concept@, strategy@).1,
    {
        if str_eq(strategy, "clarification") {
            let mut s = owned("🤔 关于「");
            push_str(&mut s, concept);
            push_str(&mut s, "」，你说「");
            push_str(&mut s, query);
            push_str(&mut s, "」——能用更具体的例子说明吗？\n追问：如果不考虑现有知识，你会从哪个角度重新看待这个问题？");
            (s, 2)
        } else if str_eq(strategy, "counterexample") {
            let mut s = owned("🧐 你提到「");
            push_str(&mut s, query);
            push_str(&mut s, "」。请考虑：如果条件反过来，结果还会一样吗？\n追问：什么情况下你的结论可能不成立？");
            (s, 2)
        } else if str_eq(strategy, "analogy") {
            let mut s = owned("💡 「");
            push_str(&mut s, query);
            push_str(&mut s, "」让我想到一个类比……你能自己找一个生活中的例子来说明「");
            push_str(&mut s, concept);
            push_str(&mut s, "」吗？\n追问：你的类比和原问题有什么本质区别？");
            (s, 2)
        } else if str_eq(strategy, "scaffold") {
            let mut s = owned("🪜 关于「");
            push_str(&mut s, concept);
            push_str(&mut s, "」，拆开来看：\n1. 前提条件是什么？\n2. 核心机制是什么？\n3. 后果是什么？\n你先回答第一步。");
            (s, 3)
        } else {
            let mut s = owned("🤔 你说「");
            push_str(&mut s, query);
            push_str(&mut s, "」，换个角度——去掉术语，普通人怎样理解「");
            push_str(&mut s, concept);
            push_str(&mut s, "」？");
            (s, 1)
        }
    }
}

impl WorkflowOrchestrator {
    /// The skill's definition.
    pub fn info() -> (r: SkillInfo)
        ensures
            r@ == builtin("tais-workflow"@, "教学工作流编排器"@, "根据教学目标和学生画像，自动编排教学节点序列（DAG）"@, SkillCategory::Orchestration, "workflow"@),
    {
        define("tais-workflow", "教学工作流编排器", "根据教学目标和学生画像，自动编排教学节点序列（DAG）", SkillCategory::Orchestration, "workflow")
    }

    /// The prompt for a teaching goal.
    pub fn prompt(goal: &str) -> (r: String)
        ensures
            r@ == "请为教学目标「"@ + goal@ + "」设计教学流程"@,
    {
        let mut s = owned("请为教学目标「");
        push_str(&mut s, goal);
        push_str(&mut s, "」设计教学流程");
        s
    }
}

impl LearningAnalyst {
    /// The skill's definition.
    pub fn info() -> (r: SkillInfo)
        ensures
            r@ == builtin("tais-learning-analyst"@, "学情分析师"@, "分析学生对话历史，识别知识掌握度、薄弱点和学习风格"@, SkillCategory::Analysis, "analyst"@),
    {
        define("tais-learning-analyst", "学情分析师", "分析学生对话历史，识别知识掌握度、薄弱点和学习风格", SkillCategory::Analysis, "analyst")
    }

    /// The prompt for a conversation about a concept.
    pub fn prompt(concept: &str, history: &str) -> (r: String)
        ensures
            r@ == "分析学生对「"@ + concept@ + "」的理解。对话："@ + history@,
    {
        let mut s = owned("分析学生对「");
        push_str(&mut s, concept);
        push_str(&mut s, "」的理解。对话：");
        push_str(&mut s, history);
        s
    }
}

impl ResourcePusher {
    /// The skill's definition.
    pub fn info() -> (r: SkillInfo)
        ensures
            r@ == builtin("tais-resource-pusher"@, "个性化资源推送员"@, "根据学生薄弱点推荐学习资源"@, SkillCategory::Resource, "resource"@),
    {
        define("tais-resource-pusher", "个性化资源推送员", "根据学生薄弱点推荐学习资源", SkillCategory::Resource, "resource")
    }

    /// The prompt for a concept and its weak points (already joined).
    pub fn prompt(concept: &str, weak: &str) -> (r: String)
        ensures
            r@ == "推荐「"@ + concept@ + "」资源，薄弱点："@ + weak@,
    {
        let mut s = owned("推荐「");
        push_str(&mut s, concept);
        push_str(&mut s, "」资源，薄弱点：");
        push_str(&mut s, weak);
        s
    }
}

impl SkillCoach {
    /// The skill's definition.
    pub fn info() -> (r: SkillInfo)
        ensures
            r@ == builtin("tais-skill-coach"@, "技能教练"@, "生成针对性练习题，批改并给出改进建议"@, SkillCategory::Coaching, "coach"@),
    {
        define("tais-skill-coach", "技能教练", "生成针对性练习题，批改并给出改进建议", SkillCategory::Coaching, "coach")
    }

    /// The prompt: grade the answer when asked to, else set an exercise.
    pub fn prompt(action: &str, concept: &str, answer: &str) -> (r: String)
        ensures
            r@ == if action@ == "grade_answer"@ {
                "批改「"@ + concept@ + "」答案："@ + answer@
            } else {
                "为「"@ + concept@ + "」生成练习题"@
            },
    {
        if str_eq(action, "grade_answer") {
            let mut s = owned("批改「");
            push_str(&mut s, concept);
            push_str(&mut s, "」答案：");
            push_str(&mut s, answer);
            s
        } else {
            let mut s = owned("为「");
            push_str(&mut s, concept);
            push_str(&mut s, "」生成练习题");
            s
        }
    }
}

impl FeedbackCollector {
    /// The skill's definition.
    pub fn info() -> (r: SkillInfo)
        ensures
            r@ == builtin("tais-feedback-collector"@, "反馈采集器"@, "采集学生对教学的反馈，分析教学效果和满意度"@, SkillCategory::Feedback, "feedback"@),
    {
        define("tais-feedback-collector", "反馈采集器", "采集学生对教学的反馈，分析教学效果和满意度", SkillCategory::Feedback, "feedback")
    }

    /// The prompt for a session's data.
    pub fn prompt(data: &str) -> (r: String)
        ensures
            r@ == "分析教学："@ + data@,
    {
        let mut s = owned("分析教学：");
        push_str(&mut s, data);
        s
    }
}

impl EvolutionSkill {
    /// The skill's definition.
    pub fn info() -> (r: SkillInfo)
        ensures
            r@ == builtin("tais-evolution"@, "自进化引擎"@, "分析教学历史，提出策略优化建议和自我改进方案"@, SkillCategory::Evolution, "evolution"@),
    {
        define("tais-evolution", "自进化引擎", "分析教学历史，提出策略优化建议和自我改进方案", SkillCategory::Evolution, "evolution")
    }

    /// The prompt for a session history.
    pub fn prompt(history: &str) -> (r: String)
        ensures
            r@ == "优化教学策略："@ + history@,
    {
        let mut s = owned("优化教学策略：");
        push_str(&mut s, history);
        s
    }
}

/// The names of the built-in skills, in order.
pub open spec fn builtin_names() -> Seq<Seq<char>> {
    seq![
        "tais-socratic-tutor"@, "tais-workflow"@, "tais-learning-analyst"@, "tais-resource-pusher"@,
        "tais-skill-coach"@, "tais-feedback-collector"@, "tais-evolution"@,
    ]
}

/// The definitions of the seven built-in skills, in order.
pub fn all_tais_skills() -> (r: Vec<SkillInfo>)
    ensures
        r@.len() == 7,
        forall|i: int| 0 <= i < 7 ==> (#[trigger] r@[i])@.name == builtin_names()[i],
        forall|i: int| 0 <= i < 7 ==> (#[trigger] r@[i])@.version == "1.0.0"@,
{
    let mut r: Vec<SkillInfo> = Vec::new();
    r.push(SocraticTutor::info());
    r.push(WorkflowOrchestrator::info());
    r.push(LearningAnalyst::info());
    r.push(ResourcePusher::info());
    r.push(SkillCoach::info());
    r.push(FeedbackCollector::info());
    r.push(EvolutionSkill::info());
    r
}

} // verus!
