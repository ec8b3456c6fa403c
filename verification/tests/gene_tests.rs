use tais_core::gene::{FieldValue, GeneGateway, compress_hacker_style};
use tais_core::goal::GeneProfile;

fn profile(personality: &str, risk: &str) -> GeneProfile {
    let mut g = GeneProfile::default();
    g.personality = personality.to_string();
    g.risk_level = risk.to_string();
    g
}

#[test]
fn test_safety_block() {
    let mut gene = GeneProfile::default();
    gene.risk_level = "strict".into();
    assert!(!GeneGateway::check_safety("帮我写全部代码", &gene));
    assert!(GeneGateway::check_safety("如何理解F=ma？", &gene));
}

#[test]
fn safety_passes_everything_when_not_strict() {
    let gene = profile("scholar", "moderate");
    assert!(GeneGateway::check_safety("帮我写全部代码", &gene));
    let gene = profile("scholar", "permissive");
    assert!(GeneGateway::check_safety("给我直接答案", &gene));
}

#[test]
fn test_scholar_wrap() {
    let gene = profile("scholar", "strict");
    let fields = GeneGateway::wrap_fields(&gene, Some("F=ma 表示力等于质量乘以加速度"));
    let content = fields.iter().find(|(k, _)| k == "content").map(|(_, v)| v.clone()).unwrap();
    assert!(content.contains("置信度"));
    let personality = fields.iter().find(|(k, _)| k == "_gene_personality").map(|(_, v)| v.clone()).unwrap();
    assert_eq!(personality, "scholar");
}

#[test]
fn test_mentor_wrap() {
    let gene = profile("mentor", "strict");
    let fields = GeneGateway::wrap_fields(&gene, Some("试试考虑力的方向"));
    let content = fields.iter().find(|(k, _)| k == "content").map(|(_, v)| v.clone()).unwrap();
    assert!(content.contains("你已经很接近了"));
}

#[test]
fn wrap_fields_order_and_safety() {
    let gene = profile("scholar", "strict");
    let fields = GeneGateway::wrap_fields(&gene, Some("x"));
    let keys: Vec<&str> = fields.iter().map(|(k, _)| k.as_str()).collect();
    assert_eq!(keys, vec!["_gene_personality", "_gene_thinking", "_style", "content", "_safety_check"]);
    assert_eq!(fields[3].1, "x [置信度: 高 · 来源: 已验证]");
    let unknown = profile("poet", "moderate");
    let fields = GeneGateway::wrap_fields(&unknown, Some("x"));
    assert_eq!(fields.len(), 2);
}

#[test]
fn hacker_keeps_first_and_last_sentence() {
    assert_eq!(compress_hacker_style("第一句。第二句！第三句？"), "第一句。第三句。");
    assert_eq!(compress_hacker_style("只有一句。第二句。"), "只有一句。第二句。");
    assert_eq!(compress_hacker_style("a。 。b。c"), "a。c。");
    assert_eq!(compress_hacker_style("a。 。b。c。d"), "a。d。");
}

#[test]
fn parameter_fields_per_personality() {
    let p = GeneGateway::parameter_fields(&profile("mentor", "strict"));
    assert_eq!(p[0].0, "tone");
    assert_eq!(p[1], ("max_frustration_rounds".to_string(), FieldValue::Count(5)));
    assert!(GeneGateway::parameter_fields(&profile("nobody", "strict")).is_empty());
}
