use tais_core::agent::Priority;
use tais_core::goal::{StudentLevel, TeachingMode};
use tais_core::reply::{goal_from_model_text, proposal_from_reply, proposal_keys, reply_fields, variant_prompt, variants_from_reply};

#[test]
fn reply_fields_reads_string_fields() {
    let f = reply_fields(r#"{"skill": "tais-skill-coach", "strategy": 3}"#, &proposal_keys()).unwrap();
    assert_eq!(f, vec![Some("tais-skill-coach".to_string()), None, None]);
    assert!(reply_fields("not json", &proposal_keys()).is_none());
}

#[test]
fn proposal_uses_the_reply_or_the_rules() {
    let f = reply_fields(r#"{"skill": "tais-skill-coach"}"#, &proposal_keys());
    let (k, s, p) = proposal_from_reply(f, Priority::Low, "浮力");
    assert_eq!((k.as_str(), s.as_str(), p.as_str()), ("tais-skill-coach", "clarification", "请解释这个概念"));
    let (k, s, p) = proposal_from_reply(None, Priority::Critical, "浮力");
    assert_eq!(k, "tais-socratic-tutor");
    assert_eq!(s, "scaffold");
    assert_eq!(p, "让我们从基础开始：关于「浮力」，你能说出它的定义吗？");
}

#[test]
fn goal_from_the_model_or_the_rules() {
    let g = goal_from_model_text(Some(r#"{"subject":"物理","concept":"浮力","mode":"project_based","level":"advanced"}"#), "x", "t");
    assert_eq!((g.subject.as_str(), g.concept.as_str()), ("物理", "浮力"));
    assert_eq!(g.mode, TeachingMode::ProjectBased);
    assert_eq!(g.target_level, StudentLevel::Advanced);
    let d = goal_from_model_text(Some("{}"), "教浮力", "t");
    assert_eq!((d.subject.as_str(), d.concept.as_str()), ("通用", "教浮力"));
    assert_eq!(d.mode, TeachingMode::DirectInstruction);
    assert_eq!(d.target_level, StudentLevel::Intermediate);
    let r = goal_from_model_text(None, "用苏格拉底方法教牛顿第二定律", "t");
    assert_eq!(r.teacher_id, "t");
}

#[test]
fn variants_are_numbered_with_fallback_prompts() {
    let vs = variants_from_reply("tutor", r#"[{"version":1,"prompt":"A"},{"version":2}]"#).unwrap();
    assert_eq!(vs.len(), 2);
    assert_eq!((vs[0].prompt.as_str(), vs[0].version), ("A", 1));
    assert_eq!((vs[1].prompt.as_str(), vs[1].version), ("fallback", 2));
    assert_eq!(vs[1].agent_name, "tutor");
    assert_eq!(variants_from_reply("tutor", "{}").unwrap_err(), "LLM response not valid JSON: {}");
    assert_eq!(variants_from_reply("tutor", "oops").unwrap_err(), "LLM response not valid JSON: oops");
}

#[test]
fn variant_prompt_lists_at_most_five_sessions() {
    let sessions: Vec<String> = (0..7).map(|i| format!("s{i}")).collect();
    let p = variant_prompt("tutor", "ask", &sessions);
    assert!(p.starts_with("You are optimizing teaching prompts. Current prompt for agent 'tutor':\n---\nask\n---\n"));
    assert!(p.contains("s0\ns1\ns2\ns3\ns4\nGenerate 2 improved"));
    assert!(!p.contains("s5"));
}
