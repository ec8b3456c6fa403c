use tais_core::goal::{
    extract_concept, extract_subject, goal_from_lowercase, goal_from_reply, goal_level_gene, goal_prompt, parse_goal,
    GeneProfile, StudentLevel, TeachingMode,
};

#[test]
fn test_parse_inquiry_goal() {
    let goal = parse_goal("为高中物理「牛顿第二定律」设计探究式学习工作流", "teacher_001").unwrap();
    assert_eq!(goal.subject, "物理");
    assert!(matches!(goal.mode, TeachingMode::InquiryBased));
}

#[test]
fn test_parse_socratic() {
    let goal = parse_goal("通过苏格拉底式追问引导学生理解力的合成", "teacher_001").unwrap();
    assert!(matches!(goal.mode, TeachingMode::SocraticDialogue));
}

#[test]
fn parse_goal_reads_concept_between_corner_brackets() {
    let goal = parse_goal("为高中物理「牛顿第二定律」设计探究式学习工作流", "teacher_001").unwrap();
    assert_eq!(goal.concept, "牛顿第二定律");
    assert_eq!(goal.teacher_id, "teacher_001");
    assert!(goal.constraints.is_empty());
}

#[test]
fn parse_goal_lowercases_english_keywords() {
    let goal = parse_goal("A Flipped lesson for ADVANCED students", "t").unwrap();
    assert_eq!(goal.mode, TeachingMode::FlippedClassroom);
    assert_eq!(goal.target_level, StudentLevel::Advanced);
    assert_eq!(goal.concept, "a flipped lesson for advanced students");
    assert_eq!(goal.subject, "通用");
}

#[test]
fn parse_goal_defaults() {
    let goal = parse_goal("复习一下", "t").unwrap();
    assert_eq!(goal.mode, TeachingMode::DirectInstruction);
    assert_eq!(goal.target_level, StudentLevel::Intermediate);
}

#[test]
fn level_keywords_order() {
    // 基础 wins over 高级 because beginner words are tested first
    let g = goal_from_lowercase("基础和高级", "t");
    assert_eq!(g.target_level, StudentLevel::Beginner);
    let g = goal_from_lowercase("project inquiry", "t");
    assert_eq!(g.mode, TeachingMode::InquiryBased);
}

#[test]
fn subject_rules() {
    assert_eq!(extract_subject("代码入门"), "编程");
    assert_eq!(extract_subject("数学和物理"), "物理");
    assert_eq!(extract_subject("写作课"), "写作");
    assert_eq!(extract_subject("化学"), "化学");
}

#[test]
fn concept_without_closing_bracket_is_whole_text() {
    assert_eq!(extract_concept("「未闭合"), "「未闭合");
    assert_eq!(extract_concept("a「b」c「d」"), "b");
    assert_eq!(extract_concept("」先「后"), "」先「后");
}

#[test]
fn level_gene_choice() {
    let mut g = goal_from_lowercase("基础", "t");
    assert_eq!(goal_level_gene(&g), "gene-mentor");
    g.target_level = StudentLevel::Advanced;
    assert_eq!(goal_level_gene(&g), "gene-hacker");
    g.target_level = StudentLevel::Intermediate;
    assert_eq!(goal_level_gene(&g), "gene-scholar");
}

#[test]
fn default_gene_profile_is_scholar() {
    let g = GeneProfile::default();
    assert_eq!(g.personality, "scholar");
    assert_eq!(g.thinking, "first_principles");
    assert_eq!(g.risk_level, "strict");
    assert_eq!(g.behavior, "precise");
}

#[test]
fn goal_from_model_reply_fields() {
    let g = goal_from_reply(Some("物理"), Some("惯性"), Some("socratic_dialogue"), Some("advanced"), "教惯性", "t1");
    assert_eq!(g.subject, "物理");
    assert_eq!(g.concept, "惯性");
    assert_eq!(g.mode, TeachingMode::SocraticDialogue);
    assert_eq!(g.target_level, StudentLevel::Advanced);
    assert_eq!(g.teacher_id, "t1");
    let d = goal_from_reply(None, None, None, Some("expert"), "教惯性", "t2");
    assert_eq!(d.subject, "通用");
    assert_eq!(d.concept, "教惯性");
    assert_eq!(d.mode, TeachingMode::DirectInstruction);
    assert_eq!(d.target_level, StudentLevel::Intermediate);
    assert!(d.constraints.is_empty());
}

#[test]
fn goal_prompt_quotes_the_sentence() {
    let p = goal_prompt("教牛顿定律");
    assert!(p.starts_with("You are a teaching goal parser. Extract from: \"教牛顿定律\"\nReturn ONLY a JSON object: {\"subject\""));
    assert!(p.ends_with("\nNo explanation, no markdown."));
}

#[test]
fn goal_after_model_uses_the_reply_or_the_rules() {
    let g = tais_core::goal::goal_after_model(Some((Some("物理"), Some("浮力"), Some("socratic_dialogue"), None)), "教浮力", "t1");
    assert_eq!(g.subject, "物理");
    assert_eq!(g.concept, "浮力");
    assert_eq!(g.mode, TeachingMode::SocraticDialogue);
    assert_eq!(g.target_level, StudentLevel::Intermediate);
    let input = "用苏格拉底方法教初中生牛顿第二定律";
    let ruled = tais_core::goal::goal_after_model(None, input, "t1");
    let expected = parse_goal(input, "t1").unwrap();
    assert_eq!(ruled.mode, expected.mode);
    assert_eq!(ruled.concept, expected.concept);
    assert_eq!(ruled.subject, expected.subject);
    assert_eq!(ruled.target_level, expected.target_level);
}
