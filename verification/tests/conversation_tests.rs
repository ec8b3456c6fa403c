use tais_core::conversation::{
    build_context_prompt, context_of, filter_matching, rank_results, ConversationStore, SearchResult, Turn,
    TurnRole,
};

fn exchange(store: &mut ConversationStore, sid: &str, q: &str, a: &str, concept: Option<&str>) {
    let (s, t) = match concept {
        Some(c) => (Turn::student(q).with_concept(c), Turn::tutor(a).with_concept(c)),
        None => (Turn::student(q), Turn::tutor(a)),
    };
    store.record(sid, s);
    store.record(sid, t);
}

#[test]
fn test_record_and_retrieve() {
    let mut memory = ConversationStore::new();
    exchange(&mut memory, "s1", "什么是F=ma？", "好问题，先想想力和加速度的关系？", Some("newton_second_law"));
    exchange(&mut memory, "s1", "力越大加速度越大？", "正确！但质量不变时成立，质量变了呢？", Some("newton_second_law"));

    let turns = memory.get_session("s1");
    let ctx = context_of("s1", &turns);
    assert_eq!(ctx.total_turns, 4);
    assert_eq!(ctx.concepts_discussed, vec!["newton_second_law".to_string()]);
    assert_eq!(ctx.recent_turns.len(), 4);

    let prompt = build_context_prompt(&turns);
    assert!(prompt.contains("F=ma"));
    assert!(prompt.contains("newton_second_law"));
}

#[test]
fn test_search() {
    let mut memory = ConversationStore::new();
    exchange(&mut memory, "s1", "牛顿第二定律", "好的，让我们开始", Some("physics"));
    exchange(&mut memory, "s2", "Python循环怎么写？", "先想想for和while的区别", Some("programming"));

    let mut hits = Vec::new();
    for sid in memory.list_sessions() {
        if !memory.search_session(&sid, "牛顿").is_empty() {
            hits.push(sid);
        }
    }
    assert_eq!(hits.len(), 1);
    assert_eq!(hits[0], "s1");
}

#[test]
fn test_recent_limit() {
    let mut memory = ConversationStore::new();
    for i in 0..10 {
        exchange(&mut memory, "s1", &format!("msg{i}a"), &format!("msg{i}b"), None);
    }
    let ctx = context_of("s1", &memory.get_session("s1"));
    assert_eq!(ctx.total_turns, 20);
    assert_eq!(ctx.recent_turns.len(), 5);
    assert_eq!(ctx.recent_turns[4].content, "msg9b");
    assert_eq!(ctx.recent_turns[0].content, "msg7b");
}

#[test]
fn test_empty_session() {
    let memory = ConversationStore::new();
    let ctx = context_of("unknown", &memory.get_session("unknown"));
    assert_eq!(ctx.total_turns, 0);
    assert!(ctx.summary.is_none());
    assert_eq!(build_context_prompt(&memory.get_session("unknown")), "");
}

#[test]
fn record_reports_every_tenth_turn_as_save_due() {
    let mut memory = ConversationStore::new();
    let mut due = Vec::new();
    for i in 0..20 {
        due.push(memory.record("s", Turn::student(&format!("t{i}"))));
    }
    let at: Vec<usize> = due.iter().enumerate().filter(|(_, d)| **d).map(|(i, _)| i).collect();
    assert_eq!(at, vec![9, 19]);
    assert_eq!(memory.count("s"), 20);
    assert_eq!(memory.count("other"), 0);
}

#[test]
fn sessions_are_listed_in_start_order_once() {
    let mut memory = ConversationStore::new();
    memory.record("b", Turn::student("x"));
    memory.record("a", Turn::student("y"));
    memory.record("b", Turn::tutor("z"));
    assert_eq!(memory.list_sessions(), vec!["b".to_string(), "a".to_string()]);
    assert_eq!(memory.get_session("b").len(), 2);
    assert_eq!(memory.get_session("b")[1].role, TurnRole::Tutor);
}

#[test]
fn get_recent_returns_the_tail() {
    let mut memory = ConversationStore::new();
    for i in 0..4 {
        memory.record("s", Turn::student(&format!("m{i}")));
    }
    let r = memory.get_recent("s", 2);
    assert_eq!(r.len(), 2);
    assert_eq!(r[0].content, "m2");
    assert_eq!(r[1].content, "m3");
    assert_eq!(memory.get_recent("s", 10).len(), 4);
}

#[test]
fn summary_counts_turns_and_concepts() {
    let mut memory = ConversationStore::new();
    memory.record("s", Turn::tutor("欢迎"));
    exchange(&mut memory, "s", "重力是什么", "想想苹果", Some("gravity"));
    exchange(&mut memory, "s", "那惯性呢", "想想刹车", Some("inertia"));
    exchange(&mut memory, "s", "再说重力", "好的", Some("gravity"));
    let ctx = context_of("s", &memory.get_session("s"));
    assert_eq!(ctx.summary.as_deref(), Some("已进行7轮对话，讨论了2个概念。学生主要关注：重力是什么"));
    assert_eq!(ctx.concepts_discussed, vec!["gravity".to_string(), "inertia".to_string()]);
    assert!(ctx.first_seen.unwrap() <= ctx.last_active.unwrap());
}

#[test]
fn context_prompt_layout() {
    let mut memory = ConversationStore::new();
    exchange(&mut memory, "s", "问", "答", Some("c"));
    let p = build_context_prompt(&memory.get_session("s"));
    assert_eq!(
        p,
        "[历史对话上下文]\n📋 已进行2轮对话，讨论了1个概念。学生主要关注：问\n\n已讨论概念: c\n\n最近对话:\n[学生]: 问\n[AI]: 答\n\n请基于以上历史上下文继续对话。不要重复已讨论过的内容。\n"
    );
}

#[test]
fn search_matches_any_word_case_insensitively() {
    let turns = vec![Turn::student("Python loops"), Turn::tutor("think about FOR"), Turn::student("ok")];
    let r = filter_matching(&turns, "for  python");
    assert_eq!(r.len(), 2);
    assert_eq!(r[0].content, "Python loops");
    assert_eq!(r[1].content, "think about FOR");
    assert!(filter_matching(&turns, "").is_empty());
}

#[test]
fn search_all_finds_the_matching_session() {
    let mut memory = ConversationStore::new();
    exchange(&mut memory, "s1", "牛顿第二定律", "好的，让我们开始", Some("physics"));
    exchange(&mut memory, "s2", "Python循环怎么写？", "先想想for和while的区别", Some("programming"));
    let results = memory.search_all("牛顿");
    assert_eq!(results.len(), 1);
    assert_eq!(results[0].session_id, "s1");
    assert_eq!((results[0].matched, results[0].total), (1, 2));
    assert!(memory.search_all("量子").is_empty());
}

#[test]
fn search_all_ranks_by_share_of_matching_turns() {
    let mut memory = ConversationStore::new();
    exchange(&mut memory, "low", "force one", "ok", None);
    exchange(&mut memory, "low", "nothing", "still nothing", None);
    exchange(&mut memory, "high", "force", "force again", None);
    exchange(&mut memory, "mid", "Force", "no", None);
    let results = memory.search_all("force");
    let order: Vec<&str> = results.iter().map(|r| r.session_id.as_str()).collect();
    assert_eq!(order, vec!["high", "mid", "low"]);
    assert_eq!((results[2].matched, results[2].total), (1, 4));
}

fn hit(id: &str, matched: usize, total: usize) -> SearchResult {
    SearchResult { session_id: id.to_string(), turns: Vec::new(), matched, total }
}

#[test]
fn ranking_keeps_the_order_of_equal_scores() {
    let r = rank_results(vec![hit("a", 1, 2), hit("b", 1, 3), hit("c", 2, 4), hit("d", 3, 3)]);
    let order: Vec<&str> = r.iter().map(|x| x.session_id.as_str()).collect();
    assert_eq!(order, vec!["d", "a", "c", "b"]);
    assert!(rank_results(Vec::new()).is_empty());
}
