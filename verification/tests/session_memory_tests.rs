use tais_core::conversation::TurnRole;
use tais_core::memory::SessionMemory;
use tais_core::shared::KnowledgeNode;

#[test]
fn test_session_user_linking() {
    let mut memory = SessionMemory::new();
    memory.link_session_user("session_abc", "student_01");

    assert_eq!(memory.get_session_user("session_abc"), Some("student_01".into()));
    assert_eq!(memory.get_session_user("unknown"), None);
}

#[test]
fn relinking_a_session_replaces_its_user() {
    let mut memory = SessionMemory::new();
    memory.link_session_user("s1", "alice");
    memory.link_session_user("s2", "bob");
    memory.link_session_user("s1", "carol");
    assert_eq!(memory.get_session_user("s1"), Some("carol".into()));
    assert_eq!(memory.get_session_user("s2"), Some("bob".into()));
    assert_eq!(memory.session_users.len(), 2);
}

#[test]
fn test_three_layer_context_empty() {
    let memory = SessionMemory::new();
    // No shared knowledge, no user profile, no session history
    let ctx = memory.build_full_context("unknown", None, "");
    assert!(ctx.is_empty());
}

#[test]
fn test_three_layer_context_with_session() {
    let mut memory = SessionMemory::new();
    memory.record_exchange("s1", "什么是重力？", "先想想为什么苹果会掉下来？", Some("gravity"));

    let ctx = memory.build_full_context("s1", None, "");
    // Should have session context at minimum
    assert!(ctx.contains("历史对话上下文"));
    assert!(ctx.contains("重力"));
}

#[test]
fn full_context_is_framed_by_bars() {
    let mut memory = SessionMemory::new();
    memory.record_exchange("s1", "问题", "回答", None);
    let bar = "══════════════════════════════════════";
    let ctx = memory.build_full_context("s1", None, "");
    let session = memory.build_context_prompt("s1");
    assert_eq!(ctx, format!("{bar}\n{session}\n{bar}\n"));
}

#[test]
fn user_layer_needs_a_linked_session() {
    let mut memory = SessionMemory::new();
    memory.record_exchange("s1", "问题", "回答", None);
    let unlinked = memory.build_full_context("s1", None, "【学生画像】小红");
    assert!(!unlinked.contains("小红"));

    memory.link_session_user("s1", "student_42");
    let linked = memory.build_full_context("s1", None, "【学生画像】小红");
    let session = memory.build_context_prompt("s1");
    let bar = "══════════════════════════════════════";
    assert_eq!(linked, format!("{bar}\n【学生画像】小红\n\n{session}\n{bar}\n"));
}

#[test]
fn test_three_layer_context_with_shared_knowledge() {
    let mut memory = SessionMemory::new();

    // Add shared knowledge
    let mut node = KnowledgeNode::new("牛顿第三定律", "physics");
    node.description = "作用力与反作用力大小相等、方向相反".into();
    node.typical_misconceptions = vec!["以为合力为零".into()];
    memory.shared.upsert_knowledge(node);

    // Add session that discusses this topic
    memory.link_session_user("s_phys", "bob");
    memory.record_exchange("s_phys", "作用力和反作用力抵消吗？", "让我们思考...", Some("牛顿第三定律"));

    let ctx = memory.build_full_context("s_phys", None, "");
    // Should contain shared knowledge (concept detected from session)
    assert!(ctx.contains("共享知识库"));
    assert!(ctx.contains("作用力与反作用力"));
    assert!(ctx.contains("合力为零")); // misconception
    // Should also contain session context
    assert!(ctx.contains("历史对话上下文"));
}

#[test]
fn concept_hint_overrides_the_session_concept() {
    let mut memory = SessionMemory::new();
    let mut node = KnowledgeNode::new("光的折射", "physics");
    node.description = "光从一种介质斜射入另一种介质时方向改变".into();
    memory.shared.upsert_knowledge(node);
    memory.record_exchange("s1", "什么是重力？", "想想苹果", Some("gravity"));

    let by_session = memory.build_full_context("s1", None, "");
    assert!(!by_session.contains("共享知识库"));
    let by_hint = memory.build_full_context("s1", Some("折射"), "");
    assert!(by_hint.contains("共享知识库"));
    assert!(by_hint.contains("方向改变"));
}

#[test]
fn test_record_exchange_with_user() {
    let mut memory = SessionMemory::new();
    memory.link_session_user("wx_session", "wx_user_01");

    let update = memory.record_exchange_with_user(
        "wx_session",
        "F=ma是什么？",
        "这是一个好问题，先想...",
        Some("newton_second_law"),
        Some(true),
        None,
    );

    // The linked user's profile gets the concept and the verdict
    assert_eq!(update, Some(("wx_user_01".to_string(), "newton_second_law".to_string(), true)));

    // Shared stats should be updated
    let stats = memory.shared.get_stats();
    assert!(stats.concept_stats.iter().any(|c| c.concept == "newton_second_law"));
    assert_eq!(stats.total_sessions, 1);
    assert_eq!(memory.session_turns("wx_session"), 2);
}

#[test]
fn unlinked_exchange_leaves_shared_stats_alone() {
    let mut memory = SessionMemory::new();
    let update = memory.record_exchange_with_user("s", "q", "a", None, Some(false), None);
    assert_eq!(update, None);
    assert_eq!(memory.shared.get_stats().total_sessions, 0);
    assert_eq!(memory.session_turns("s"), 2);
}

#[test]
fn exposure_without_concept_counts_as_unknown_and_wrong_answers_score_zero() {
    let mut memory = SessionMemory::new();
    memory.link_session_user("s", "u");
    let update = memory.record_exchange_with_user("s", "q", "a", None, Some(false), Some("混淆"));
    assert_eq!(update, Some(("u".to_string(), "unknown".to_string(), false)));
    let stats = memory.shared.get_stats();
    let entry = stats.concept_stats.iter().find(|c| c.concept == "unknown").unwrap();
    assert_eq!(entry.total_exposures, 1);
    assert_eq!(entry.mastery_total, 0);
}

#[test]
fn record_exchange_appends_student_then_tutor() {
    let mut memory = SessionMemory::new();
    memory.record_exchange("s1", "问", "答", Some("c"));
    let turns = memory.get_history("s1");
    assert_eq!(turns.len(), 2);
    assert_eq!(turns[0].role, TurnRole::Student);
    assert_eq!(turns[0].content, "问");
    assert_eq!(turns[1].role, TurnRole::Tutor);
    assert_eq!(turns[1].concept.as_deref(), Some("c"));
    assert_eq!(memory.list_sessions(), vec!["s1".to_string()]);
    let ctx = memory.get_context("s1");
    assert_eq!(ctx.total_turns, 2);
    assert_eq!(ctx.concepts_discussed, vec!["c".to_string()]);
}

#[test]
fn search_finds_the_session() {
    let mut memory = SessionMemory::new();
    memory.record_exchange("s1", "牛顿第二定律", "好的，让我们开始", Some("physics"));
    memory.record_exchange("s2", "Python循环怎么写？", "先想想for和while的区别", Some("programming"));
    let results = memory.search("牛顿");
    assert_eq!(results.len(), 1);
    assert_eq!(results[0].session_id, "s1");
}
