use tais_core::checkpoint::WorkingCheckpoint;
use tais_core::hot_memory::{HotMemory, MAX_CHARS};

#[test]
fn test_read_empty() {
    let hm = HotMemory::initial();
    let content = hm.read();
    assert!(content.chars().count() <= MAX_CHARS);
}

#[test]
fn initial_memory_reads_the_marker_line() {
    let hm = HotMemory::initial();
    assert_eq!(hm.read(), "§");
    assert_eq!(hm.size(), 1);
    assert_eq!(hm.to_prompt(), "[热记忆 — 关于用户和环境的关键事实]\n§\n[/热记忆]\n");
}

#[test]
fn add_inserts_after_last_marker() {
    let mut hm = HotMemory::initial();
    hm.add("  用户叫小明  ").unwrap();
    assert_eq!(hm.content(), "# TAIS Hot Memory\n§\n用户叫小明 §\n");
    hm.add("喜欢物理").unwrap();
    assert_eq!(hm.content(), "# TAIS Hot Memory\n§\n用户叫小明 §\n喜欢物理 §\n");
    assert_eq!(hm.add("   ").unwrap_err(), "empty fact");
    assert_eq!(hm.add("小明").unwrap_err(), "duplicate");
    assert_eq!(hm.read(), "§\n用户叫小明 §\n喜欢物理 §");
}

#[test]
fn add_refuses_when_full() {
    let mut hm = HotMemory::from_content(String::new());
    let long = "x".repeat(700);
    let e = hm.add(&long).unwrap_err();
    assert_eq!(e, "memory full (702 chars), remove old entries first");
    assert_eq!(hm.content(), "");
}

#[test]
fn read_cuts_at_500_characters() {
    let short = HotMemory::from_content("好".repeat(200));
    assert_eq!(short.read(), "好".repeat(200));
    assert_eq!(short.size(), 200);
    let hm = HotMemory::from_content("好".repeat(600));
    let r = hm.read();
    assert_eq!(r, format!("{}...", "好".repeat(497)));
    assert_eq!(hm.size(), 500);
    assert_eq!(hm.size(), r.chars().count());
}

#[test]
fn remove_and_replace() {
    let mut hm = HotMemory::from_content("# h\na §\nb §\n".to_string());
    assert_eq!(hm.remove("zzz").unwrap_err(), "not found: zzz");
    hm.remove("a").unwrap();
    assert_eq!(hm.content(), "# h\nb §\n");
    assert_eq!(hm.remove("\nb").unwrap_err(), "no lines removed");
    hm.replace("b", "c").unwrap();
    assert_eq!(hm.content(), "# h\nc §\n");
    assert_eq!(hm.replace("q", "c").unwrap_err(), "not found: q");
}

#[test]
fn test_checkpoint_create_and_update() {
    let mut cp = WorkingCheckpoint::new("步骤1: 诊断学生基础");
    assert!(cp.to_prompt_injection().contains("步骤1"));
    assert_eq!(cp.passed_sessions, 0);

    cp.update("步骤2: 开始探究式教学");
    assert!(cp.key_info.contains("步骤2"));
    assert_eq!(cp.passed_sessions, 0);
}

#[test]
fn test_stale_detection() {
    let mut cp = WorkingCheckpoint::new("test");
    for _ in 0..6 {
        cp.increment_passed();
    }
    assert!(cp.is_stale());
}

#[test]
fn test_with_sop() {
    let cp = WorkingCheckpoint::new("使用苏格拉底追问").with_sop("tais_socratic_tutor.md");
    assert!(cp.to_prompt_injection().contains("tais_socratic_tutor.md"));
}

#[test]
fn test_empty_checkpoint() {
    let cp = WorkingCheckpoint::default();
    assert!(cp.is_empty());
    assert!(cp.to_prompt_injection().contains("[工作记忆]"));
}

#[test]
fn checkpoint_injection_text() {
    let mut cp = WorkingCheckpoint::new("k");
    for _ in 0..12 {
        cp.increment_passed();
    }
    assert_eq!(
        cp.to_prompt_injection(),
        "[工作记忆] k\n[SYSTEM] 此为 12 个对话前设置的 key_info，若已在新任务，请先更新或清除工作记忆。\n"
    );
    let mut full = WorkingCheckpoint::new("k");
    full.passed_sessions = u32::MAX;
    full.increment_passed();
    assert_eq!(full.passed_sessions, u32::MAX);
    assert!(!WorkingCheckpoint::new("k").is_stale());
}
