use tais_core::goal::{parse_goal, HitlAction, StudentLevel, TeachingGoal, TeachingMode};
use tais_core::workflow::{
    default_templates, generate_with, HitlCondition, HitlTrigger, NodeInput, NodeTemplate, Orchestrator,
};

fn goal(mode: TeachingMode, level: StudentLevel) -> TeachingGoal {
    TeachingGoal {
        subject: "物理".to_string(),
        concept: "牛顿第二定律".to_string(),
        mode,
        target_level: level,
        constraints: Vec::new(),
        teacher_id: "teacher_001".to_string(),
    }
}

#[test]
fn inquiry_workflow_runs_the_phases_in_order() {
    let o = Orchestrator::new();
    let w = o.generate(goal(TeachingMode::InquiryBased, StudentLevel::Beginner));
    let names: Vec<&str> = w.nodes.iter().map(|n| n.name.as_str()).collect();
    assert_eq!(names, vec!["课前诊断", "概念导入", "探究引导", "练习巩固", "课后评估", "教师审查"]);
    let ids: Vec<&str> = w.nodes.iter().map(|n| n.id.as_str()).collect();
    assert_eq!(ids, vec!["课前诊断_0", "概念导入_1", "探究引导_2", "练习巩固_3", "课后评估_4", "teacher_review"]);
    assert_eq!(w.entry, "课前诊断_0");
    assert_eq!(w.edges.len(), 5);
    for (i, (from, to)) in w.edges.iter().enumerate() {
        assert_eq!(from, &w.nodes[i].id);
        assert_eq!(to, &w.nodes[i + 1].id);
    }
    assert_eq!(w.nodes[0].gene, vec!["gene-mentor".to_string()]);
    assert_eq!(w.nodes[3].agent, vec!["tais-skill-coach".to_string(), "tais-resource-pusher".to_string()]);
    assert_eq!(
        w.nodes[0].hitl_trigger,
        Some(HitlTrigger { condition: HitlCondition::ConfidenceBelow(70), action: HitlAction::EscalateToTeacher })
    );
    assert_eq!(w.nodes[1].hitl_trigger, None);
    assert_eq!(
        w.nodes[5].hitl_trigger,
        Some(HitlTrigger { condition: HitlCondition::ConfidenceBelow(100), action: HitlAction::EscalateToTeacher })
    );
    assert!(matches!(w.nodes[5].input, NodeInput::ReviewReport));
    match &w.nodes[2].input {
        NodeInput::Goal { concept, level, mode } => {
            assert_eq!(concept, "牛顿第二定律");
            assert_eq!(*level, StudentLevel::Beginner);
            assert_eq!(*mode, TeachingMode::InquiryBased);
        }
        NodeInput::ReviewReport => panic!("goal input expected"),
    }
    assert_eq!(w.id.len(), 36);
    assert_eq!(w.gene_profile.personality, "scholar");
}

#[test]
fn socratic_workflow_has_one_step_then_review() {
    let w = Orchestrator::new().generate(goal(TeachingMode::SocraticDialogue, StudentLevel::Advanced));
    let ids: Vec<&str> = w.nodes.iter().map(|n| n.id.as_str()).collect();
    assert_eq!(ids, vec!["苏格拉底追问_0", "teacher_review"]);
    assert_eq!(w.nodes[0].gene, vec!["gene-hacker".to_string()]);
    assert_eq!(w.edges, vec![("苏格拉底追问_0".to_string(), "teacher_review".to_string())]);
}

#[test]
fn mode_without_templates_gives_only_the_review() {
    let w = Orchestrator::new().generate(goal(TeachingMode::ProjectBased, StudentLevel::Intermediate));
    assert_eq!(w.nodes.len(), 1);
    assert_eq!(w.entry, "teacher_review");
    assert!(w.edges.is_empty());
}

#[test]
fn parsed_goal_drives_generation() {
    let g = parse_goal("为高中物理「牛顿第二定律」设计探究式学习工作流", "teacher_001").unwrap();
    let w = Orchestrator::new().generate(g);
    assert_eq!(w.nodes.len(), 6);
    assert_eq!(w.goal.concept, "牛顿第二定律");
}

fn template(phase: u32, name: &str) -> NodeTemplate {
    NodeTemplate {
        mode: TeachingMode::FlippedClassroom,
        phase,
        name: name.to_string(),
        default_agent: Vec::new(),
        required_tools: Vec::new(),
        has_hitl: false,
        default_hitl: Some(HitlTrigger { condition: HitlCondition::NoProgressAfter(2), action: HitlAction::FlagForReview }),
        can_skip: false,
    }
}

#[test]
fn templates_are_stably_sorted_by_phase_and_ids_lowercased() {
    let ts = vec![template(2, "Wrap Up"), template(0, "Warm Up"), template(2, "Quiz"), template(1, "Main Part")];
    let w = generate_with(&ts, goal(TeachingMode::FlippedClassroom, StudentLevel::Beginner));
    let ids: Vec<&str> = w.nodes.iter().map(|n| n.id.as_str()).collect();
    assert_eq!(ids, vec!["warm_up_0", "main_part_1", "wrap_up_2", "quiz_3", "teacher_review"]);
    assert_eq!(w.nodes[0].hitl_trigger, None);
}

#[test]
fn default_templates_cover_two_modes() {
    let ts = default_templates();
    assert_eq!(ts.len(), 6);
    assert_eq!(ts.iter().filter(|t| t.mode == TeachingMode::InquiryBased).count(), 5);
    assert!(ts.iter().all(|t| t.has_hitl == t.default_hitl.is_some()));
    assert!(ts[1].can_skip);
}

#[test]
fn default_node_counts_per_mode() {
    let o = Orchestrator::new();
    let cases = [
        (TeachingMode::InquiryBased, 6),
        (TeachingMode::SocraticDialogue, 2),
        (TeachingMode::DirectInstruction, 1),
        (TeachingMode::ProjectBased, 1),
        (TeachingMode::FlippedClassroom, 1),
    ];
    for (mode, n) in cases {
        let w = o.generate(goal(mode, StudentLevel::Beginner));
        assert_eq!(w.nodes.len(), n);
        assert_eq!(w.nodes[n - 1].id, "teacher_review");
        assert!(w.nodes[n - 1].hitl_trigger.is_some());
        assert_eq!(w.edges.len(), n - 1);
        assert_eq!(w.entry, w.nodes[0].id);
    }
}

#[test]
fn hitl_due_reads_the_output_facts() {
    use_hitl();
}

fn use_hitl() {
    let w = Orchestrator::new().generate(goal(TeachingMode::InquiryBased, StudentLevel::Beginner));
    let facts = |c: bool, r: Option<u64>, e: bool| tais_core::workflow::OutputFacts { confidence_below: c, progress_rounds: r, error_rate_above: e };
    // the review node escalates on low confidence
    let review = &w.nodes[w.nodes.len() - 1];
    assert!(review.hitl_due(&facts(true, None, false)));
    assert!(!review.hitl_due(&facts(false, Some(9), true)));
    assert_eq!(review.dispatch_agent(), "tais-workflow");
    // 探究引导 waits three rounds without progress
    let inquiry = w.nodes.iter().find(|n| n.name == "探究引导").unwrap();
    assert!(!inquiry.hitl_due(&facts(true, Some(2), true)));
    assert!(inquiry.hitl_due(&facts(false, Some(3), false)));
    let intro = w.nodes.iter().find(|n| n.name == "概念导入").unwrap();
    assert!(!intro.hitl_due(&facts(true, Some(9), true)));
}
