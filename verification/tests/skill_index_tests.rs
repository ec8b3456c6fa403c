use tais_core::skill_index::{
    index_readable, index_with_skill, keywords_for, match_percent, parse_index_text, sop_text, SkillLoader,
};

const INDEX: &str = "# Skills\ntais-socratic-tutor: 苏格拉底式导师 [追问,引导,苏格拉底]\ntais-workflow: 工作流编排 [工作流,DAG]\noo-prd-generator: PRD生成 [PRD,需求]\n";

#[test]
fn test_parse_index() {
    let loader = SkillLoader::new("skills", Some(INDEX));
    let entries = parse_index_text(INDEX);
    assert_eq!(entries.len(), 3);
    assert_eq!(entries[0].name, "tais-socratic-tutor");
    assert!(entries[0].trigger_words.contains(&"苏格拉底".to_string()));
    assert_eq!(loader.skills_dir(), "skills");
}

#[test]
fn index_lines_are_parsed() {
    let entries = parse_index_text("// comment\n\nname:  desc only \nx: y [A, ,B]\nno colon here\n");
    assert_eq!(entries.len(), 2);
    assert_eq!(entries[0].description, "desc only");
    assert!(entries[0].trigger_words.is_empty());
    assert_eq!(entries[0].sop_file, "name.md");
    assert_eq!(entries[1].trigger_words, vec!["a".to_string(), "b".to_string()]);
}

#[test]
fn test_match_skills_direct_hit() {
    let loader = SkillLoader::new("skills", Some(INDEX));
    let kws = vec!["苏格拉底".to_string()];
    let matches = loader.match_skills(&kws);
    assert!(!matches.is_empty());
    assert_eq!(matches[0].entry, 0);
    // description hit (1) + trigger hit (2) out of at most 5
    assert_eq!(matches[0].hits, 3);
}

#[test]
fn test_match_skills_no_match() {
    let loader = SkillLoader::new("skills", Some(INDEX));
    let kws = vec!["量子力学".to_string(), "相对论".to_string()];
    assert!(loader.match_skills(&kws).is_empty());
}

#[test]
fn ranking_is_best_first_and_stable() {
    let loader = SkillLoader::new("skills", Some("a: x [k]\nb: k [k]\nc: x [k]\n"));
    let kws = vec!["k".to_string()];
    let m = loader.match_skills(&kws);
    let order: Vec<usize> = m.iter().map(|x| x.entry).collect();
    assert_eq!(order, vec![1, 0, 2]);
    // name "k" exact (3) + description (1) + trigger (2) = 6, capped at 5
    let loader = SkillLoader::new("skills", Some("k: k [k]\n"));
    assert_eq!(loader.match_skills(&kws)[0].hits, 5);
}

#[test]
fn test_resolve_empty_when_no_match() {
    let loader = SkillLoader::new("skills", Some(INDEX));
    let r = loader.resolve(Some("xyz不存在的概念"), 2);
    assert!(r.is_empty());
}

#[test]
fn resolve_ranks_with_teaching_words() {
    let loader = SkillLoader::new("skills", Some("t: 教学助手 [追问]\nw: 工作流 [DAG]\n"));
    let r = loader.resolve(Some("追问 引导"), 2);
    assert_eq!(r.len(), 1);
    assert_eq!(r[0].entry.name, "t");
    assert_eq!(r[0].max_possible, 20);
    assert_eq!(keywords_for(None), vec!["教学".to_string(), "学习".to_string()]);
    let mut l = SkillLoader::new("d", None);
    assert!(l.resolve(Some("追问"), 3).is_empty());
    l.reload(Some("t: 教学助手 [追问]\n"));
    assert_eq!(l.resolve(Some("追问"), 3).len(), 1);
}

#[test]
fn index_update_inserts_under_heading() {
    let idx = "# Index\na: x\n## Self-Evolved Skills\nb: y [自进化]\n";
    let out = index_with_skill(idx, "c", "z").unwrap();
    assert_eq!(out, "# Index\na: x\n## Self-Evolved Skills\nc: z [自进化]\nb: y [自进化]\n");
    assert!(index_with_skill(&out, "c", "other").is_none());
    let appended = index_with_skill("# Index\na: x\n", "n", "d").unwrap();
    assert_eq!(appended, "# Index\na: x\n\n## Self-Evolved Skills\nn: d [自进化]\n");
}

#[test]
fn sop_document_layout() {
    let doc = sop_text("s", "d", "strategy", &vec!["p1".into()], &vec![], "2026-01-01 00:00:00");
    assert!(doc.starts_with("# s: d\n\n## 核心策略\nstrategy\n\n## 常见坑点\n- ❌ p1\n\n## 成功指标\n- 学生能正确回答相关练习\n"));
    assert!(doc.ends_with("- 结晶时间: 2026-01-01 00:00:00\n- 来源: TAIS 习惯引擎自动结晶\n- 技能类型: 自进化生成\n"));
}

#[test]
fn index_readability_precondition() {
    assert!(index_readable(INDEX));
    assert!(index_readable(""));
    assert!(index_readable("a: b [c"));
    assert!(!index_readable("ok: fine [x]\nbad: ] before [ open"));
}

#[test]
fn crystallized_skill_reads_back_after_reload() {
    let mut loader = SkillLoader::new("skills", Some(INDEX));
    let updated = index_with_skill(INDEX, "physics_newton", "牛顿定律讲解").unwrap();
    assert!(index_readable(&updated));
    loader.reload(Some(&updated));
    let m = loader.match_skills(&vec!["physics_newton".to_string()]);
    assert!(!m.is_empty());
    let e = &parse_index_text(&updated)[m[0].entry];
    assert_eq!(e.name, "physics_newton");
    assert_eq!(e.sop_file, "physics_newton.md");
    assert_eq!(loader.skills_dir(), "skills");
}

#[test]
fn sop_context_lists_loaded_sops() {
    use_sop_context();
}

fn use_sop_context() {
    let none: Vec<(String, u64, Option<String>)> = vec![("a".to_string(), 50, None)];
    assert_eq!(tais_core::skill_index::sop_context(&none), "");
    let items = vec![
        ("追问".to_string(), 40, Some("先问定义".to_string())),
        ("缺失".to_string(), 10, None),
        ("练习".to_string(), 100, Some("做题".to_string())),
    ];
    assert_eq!(
        tais_core::skill_index::sop_context(&items),
        "[相关技能SOP]\n### 追问 (匹配度: 40%)\n先问定义\n---\n### 练习 (匹配度: 100%)\n做题\n---\n"
    );
}

#[test]
fn match_percentage_is_rounded_and_capped() {
    assert_eq!(match_percent(0, 0), 0);
    assert_eq!(match_percent(5, 10), 50);
    assert_eq!(match_percent(1, 3), 33);
    assert_eq!(match_percent(2, 3), 67);
    assert_eq!(match_percent(1, 8), 12);
    assert_eq!(match_percent(3, 8), 38);
    assert_eq!(match_percent(20, 10), 100);
    assert_eq!(match_percent(u128::MAX - 1, u128::MAX), 100);
}
