use tais_core::shared::{FaqEntry, KnowledgeNode, SharedMemory, StrategyEntry};

fn faq(question: &str, answer: &str, usage_count: u32, effectiveness: u32) -> FaqEntry {
    FaqEntry {
        question: question.into(),
        answer_template: answer.into(),
        domain: "physics".into(),
        usage_count,
        effectiveness,
        related_concepts: vec![],
        created_at: 0,
    }
}

fn strategy(id: &str, concept: &str, success_rate: u32) -> StrategyEntry {
    StrategyEntry {
        id: id.into(),
        name: format!("策略{id}"),
        description: "".into(),
        applicable_concepts: vec![concept.into()],
        success_rate,
        times_used: 1,
        created_at: 0,
    }
}

#[test]
fn test_upsert_and_search_knowledge() {
    let mut sm = SharedMemory::new();

    let mut node = KnowledgeNode::new("牛顿第二定律", "physics");
    node.description = "F=ma，力等于质量乘以加速度".into();
    node.typical_misconceptions = vec!["认为力是维持运动的原因".into()];
    sm.upsert_knowledge(node);

    let results = sm.search_knowledge("牛顿");
    assert_eq!(results.len(), 1);
    assert_eq!(results[0].concept, "牛顿第二定律");
}

#[test]
fn test_faq_search_and_rank() {
    let mut sm = SharedMemory::new();

    sm.add_faq(FaqEntry {
        question: "什么是惯性?".into(),
        answer_template: "惯性是...".into(),
        domain: "physics".into(),
        usage_count: 100,
        effectiveness: 900,
        related_concepts: vec!["牛顿第一定律".into()],
        created_at: 0,
    });

    sm.add_faq(FaqEntry {
        question: "Python 循环怎么写?".into(),
        answer_template: "for 和 while...".into(),
        domain: "cs".into(),
        usage_count: 50,
        effectiveness: 700,
        related_concepts: vec![],
        created_at: 0,
    });

    let results = sm.search_faqs("惯性");
    assert_eq!(results.len(), 1);
    assert_eq!(results[0].question, "什么是惯性?");

    let top = sm.top_faqs(1);
    assert_eq!(top[0].usage_count, 100);
}

#[test]
fn test_record_and_get_stats() {
    let mut sm = SharedMemory::new();

    sm.record_exposure("F=ma", 800, Some("搞混加速度和速度"));
    sm.record_exposure("F=ma", 300, Some("搞混加速度和速度"));
    sm.record_exposure("F=ma", 900, None);

    let stats = sm.get_stats();
    assert_eq!(stats.total_sessions, 3);
    let entry = stats.concept_stats.iter().find(|c| c.concept == "F=ma").unwrap();
    assert_eq!(entry.common_errors.len(), 1);
    assert_eq!(entry.common_errors[0].1, 2); // appeared twice
    assert_eq!((entry.confusion_errors, entry.confusion_base), (2, 2));
    assert_eq!(entry.mastery_total, 2000);
    assert_eq!(stats.most_difficult, vec!["F=ma".to_string()]);
}

#[test]
fn test_strategies() {
    let mut sm = SharedMemory::new();

    sm.add_strategy(StrategyEntry {
        id: "s1".into(),
        name: "类比法".into(),
        description: "用水流类比电流".into(),
        applicable_concepts: vec!["电流".into()],
        success_rate: 850,
        times_used: 12,
        created_at: 0,
    });

    let found = sm.find_strategies("电流");
    assert_eq!(found.len(), 1);
    assert_eq!(found[0].success_rate, 850);

    // No strategies for unrelated concept
    let none = sm.find_strategies("微积分");
    assert!(none.is_empty());
}

#[test]
fn test_build_shared_context() {
    let mut sm = SharedMemory::new();

    let mut node = KnowledgeNode::new("牛顿第三定律", "physics");
    node.description = "作用力与反作用力".into();
    node.typical_misconceptions = vec!["以为合力为零".into()];
    sm.upsert_knowledge(node);

    sm.record_exposure("牛顿第三定律", 400, Some("混淆作用力和合力"));

    let ctx = sm.build_shared_context(Some("牛顿"));
    assert!(ctx.contains("共享知识库"));
    assert!(ctx.contains("作用力与反作用力"));
    assert!(ctx.contains("全局难点"));
}

#[test]
fn shared_context_exact_text() {
    let mut sm = SharedMemory::new();
    let mut node = KnowledgeNode::new("电流", "physics");
    node.description = "电荷的定向移动".into();
    node.typical_misconceptions = vec!["电流会被用掉".into(), "电线越粗电流越小".into()];
    sm.upsert_knowledge(node);
    sm.add_faq(faq("电流是什么?", "电荷...", 5, 500));
    sm.record_exposure("电流", 500, Some("用掉"));
    let ctx = sm.build_shared_context(Some("电流"));
    assert_eq!(
        ctx,
        "【共享知识库】\n• 电流: 电荷的定向移动\n  常见误解: 电流会被用掉、电线越粗电流越小\n\n【高频问答】\n  Q: 电流是什么?\n\n【全局难点】最近学生普遍在以下概念遇到困难: 电流\n"
    );
    assert_eq!(SharedMemory::new().build_shared_context(None), "");
}

#[test]
fn upsert_replaces_the_note_of_the_same_concept() {
    let mut sm = SharedMemory::new();
    sm.upsert_knowledge(KnowledgeNode::new("力", "physics"));
    let mut second = KnowledgeNode::new("力", "physics");
    second.description = "新的描述".into();
    sm.upsert_knowledge(second);
    assert_eq!(sm.list_knowledge().len(), 1);
    assert_eq!(sm.get_knowledge("力").unwrap().description, "新的描述");
    assert!(sm.get_knowledge("功").is_none());
}

#[test]
fn search_is_case_insensitive_and_newest_first() {
    let mut sm = SharedMemory::new();
    let mut a = KnowledgeNode::new("Energy", "PHYSICS");
    a.updated_at = 10;
    let mut b = KnowledgeNode::new("Power", "physics");
    b.updated_at = 20;
    let mut c = KnowledgeNode::new("Algebra", "math");
    c.updated_at = 30;
    sm.upsert_knowledge(a);
    sm.upsert_knowledge(b);
    sm.upsert_knowledge(c);
    let found: Vec<String> = sm.search_knowledge("Physics").into_iter().map(|n| n.concept).collect();
    assert_eq!(found, vec!["Power".to_string(), "Energy".to_string()]);
}

#[test]
fn faq_ranking_is_stable_for_ties() {
    let mut sm = SharedMemory::new();
    sm.add_faq(faq("q1 力", "a", 1, 500));
    sm.add_faq(faq("q2 力", "a", 3, 800));
    sm.add_faq(faq("q3 力", "a", 3, 500));
    let by_effect: Vec<String> = sm.search_faqs("力").into_iter().map(|f| f.question).collect();
    assert_eq!(by_effect, vec!["q2 力", "q1 力", "q3 力"]);
    let by_use: Vec<String> = sm.top_faqs(2).into_iter().map(|f| f.question).collect();
    assert_eq!(by_use, vec!["q2 力", "q3 力"]);
    assert_eq!(sm.top_faqs(10).len(), 3);
}

#[test]
fn strategies_are_keyed_by_id_and_ranked_by_success() {
    let mut sm = SharedMemory::new();
    sm.add_strategy(strategy("s1", "电流", 600));
    sm.add_strategy(strategy("s2", "电流", 900));
    sm.add_strategy(strategy("s1", "电压", 700));
    let top: Vec<String> = sm.top_strategies(5).into_iter().map(|s| s.id).collect();
    assert_eq!(top, vec!["s2", "s1"]);
    assert_eq!(sm.find_strategies("电流").len(), 1);
    assert_eq!(sm.find_strategies("电压")[0].id, "s1");
}

#[test]
fn exposures_track_mastery_errors_and_confusion() {
    let mut sm = SharedMemory::new();
    sm.record_exposure("a", 800, Some("e1"));
    sm.record_exposure("a", 400, Some("e2"));
    sm.record_exposure("a", 600, None);
    sm.record_exposure("b", 1000, None);
    let stats = sm.get_stats();
    let a = &stats.concept_stats[0];
    assert_eq!(a.total_exposures, 3);
    assert_eq!(a.mastery_total, 1800);
    // all errors over all exposures, as of the last exposure with an error
    assert_eq!((a.confusion_errors, a.confusion_base), (2, 2));
    let b = &stats.concept_stats[1];
    assert_eq!((b.confusion_errors, b.confusion_base), (0, 1));
    assert_eq!(stats.most_difficult, vec!["a".to_string(), "b".to_string()]);
    assert_eq!(stats.total_sessions, 4);
}

#[test]
fn an_error_recomputes_the_confusion_rate_over_all_exposures() {
    let mut sm = SharedMemory::new();
    sm.record_exposure("c", 500, None);
    sm.record_exposure("c", 500, None);
    sm.record_exposure("c", 500, Some("e"));
    let stats = sm.get_stats();
    assert_eq!((stats.concept_stats[0].confusion_errors, stats.concept_stats[0].confusion_base), (1, 3));
}

#[test]
fn best_probe_is_the_first_question() {
    let mut n = KnowledgeNode::new("x", "y");
    assert_eq!(n.best_probe(&["x"]), None);
    n.probing_questions = vec!["为什么?".into(), "怎么做?".into()];
    assert_eq!(n.best_probe(&[]), Some("为什么?"));
}
