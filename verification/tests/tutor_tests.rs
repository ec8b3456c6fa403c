use tais_core::agent::{fallback_plan, Priority};
use tais_core::habit::{HabitAction, HabitTally};
use tais_core::skills::SkillCategory;
use tais_core::tutor::{all_tais_skills, SkillCoach, SocraticTutor, WorkflowOrchestrator};

#[test]
fn builtin_skill_definitions() {
    let skills = all_tais_skills();
    let names: Vec<&str> = skills.iter().map(|s| s.name.as_str()).collect();
    assert_eq!(names, vec![
        "tais-socratic-tutor", "tais-workflow", "tais-learning-analyst", "tais-resource-pusher",
        "tais-skill-coach", "tais-feedback-collector", "tais-evolution",
    ]);
    assert!(skills.iter().all(|s| s.version == "1.0.0" && s.binds.len() == 1));
    assert_eq!(skills[0].display_name, "苏格拉底式导师");
    assert_eq!(skills[0].category, SkillCategory::Teaching);
    assert_eq!(skills[1].binds, vec!["workflow".to_string()]);
}

#[test]
fn socratic_fallback_by_strategy() {
    let (c, n) = SocraticTutor::fallback("力越大加速度越大？", "牛顿第二定律", "clarification");
    assert_eq!(c, "🤔 关于「牛顿第二定律」，你说「力越大加速度越大？」——能用更具体的例子说明吗？\n追问：如果不考虑现有知识，你会从哪个角度重新看待这个问题？");
    assert_eq!(n, 2);
    let (c, n) = SocraticTutor::fallback("q", "概念", "scaffold");
    assert!(c.starts_with("🪜 关于「概念」，拆开来看：\n1. 前提条件是什么？"));
    assert_eq!(n, 3);
    assert_eq!(SocraticTutor::fallback("q", "c", "counterexample").1, 2);
    assert!(SocraticTutor::fallback("q", "c", "analogy").0.starts_with("💡 「q」让我想到一个类比"));
    assert_eq!(SocraticTutor::fallback("q", "c", "other"), ("🤔 你说「q」，换个角度——去掉术语，普通人怎样理解「c」？".to_string(), 1));
}

#[test]
fn skill_prompts() {
    assert_eq!(
        SocraticTutor::prompt("惯性", "analogy", "", "为什么刹车会前倾"),
        "学生正在学习「惯性」，策略「analogy」。\n上下文：\n\n学生问题：为什么刹车会前倾\n\n请生成苏格拉底式追问（JSON）："
    );
    assert_eq!(WorkflowOrchestrator::prompt("牛顿定律"), "请为教学目标「牛顿定律」设计教学流程");
    assert_eq!(SkillCoach::prompt("grade_answer", "F=ma", "F=m/a"), "批改「F=ma」答案：F=m/a");
    assert_eq!(SkillCoach::prompt("generate_exercise", "F=ma", "x"), "为「F=ma」生成练习题");
}

#[test]
fn fallback_plans_by_priority() {
    let (skill, strategy, prompt) = fallback_plan(Priority::Critical, "电场");
    assert_eq!((skill, strategy), ("tais-socratic-tutor", "scaffold"));
    assert_eq!(prompt, "让我们从基础开始：关于「电场」，你能说出它的定义吗？");
    assert_eq!(fallback_plan(Priority::High, "x").1, "clarification");
    assert_eq!(fallback_plan(Priority::Medium, "x").0, "tais-skill-coach");
    assert_eq!(fallback_plan(Priority::Low, "磁场").2, "你已掌握「磁场」的基础，来看看进阶资源");
}

#[test]
fn habit_actions_and_tally() {
    assert_eq!(HabitAction::SwitchStrategy.result_text(), "Switched teaching strategy due to repeated error pattern");
    assert_eq!(HabitAction::SafetyChecklist.result_text(), "Executed mandatory safety checklist for high-risk operation");
    let mut t = HabitTally::new();
    t.record(true);
    t.record(true);
    assert_eq!((t.success_count, t.failure_count, t.streak), (2, 0, 2));
    t.record(false);
    assert_eq!((t.success_count, t.failure_count, t.streak), (2, 1, 0));
    let mut full = HabitTally { success_count: u32::MAX, failure_count: 0, streak: u32::MAX };
    full.record(true);
    assert_eq!(full.success_count, u32::MAX);
}
