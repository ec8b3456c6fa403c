use tais_core::skills::{SkillCategory, SkillError, SkillInfo, SkillsBus};

fn info(name: &str) -> SkillInfo {
    SkillInfo {
        name: name.into(),
        display_name: format!("{name} display"),
        version: "1.0.0".into(),
        description: "d".into(),
        category: SkillCategory::Teaching,
        binds: vec!["gene-scholar".into()],
    }
}

#[test]
fn register_needs_install() {
    let mut bus = SkillsBus::new();
    match bus.register("tutor") {
        Err(SkillError::NotInstalled(n)) => assert_eq!(n, "tutor"),
        _ => panic!("expected NotInstalled"),
    }
    bus.install(info("tutor"));
    assert!(bus.register("tutor").is_ok());
    assert!(bus.register("tutor").is_ok());
    assert_eq!(bus.list_skills(), vec!["tutor".to_string()]);
    assert!(bus.check_execute("tutor").is_ok());
}

#[test]
fn cannot_uninstall_while_registered() {
    let mut bus = SkillsBus::new();
    bus.install(info("tutor"));
    bus.register("tutor").unwrap();
    match bus.uninstall("tutor") {
        Err(SkillError::StillRegistered(n)) => assert_eq!(n, "tutor"),
        _ => panic!("expected StillRegistered"),
    }
    bus.unregister("tutor").unwrap();
    assert!(bus.uninstall("tutor").is_ok());
    match bus.uninstall("tutor") {
        Err(e) => assert_eq!(e.message(), "Skill not installed: tutor"),
        _ => panic!("expected NotInstalled"),
    }
    match bus.unregister("tutor") {
        Err(e) => assert_eq!(e.message(), "Skill not registered: tutor"),
        _ => panic!("expected NotRegistered"),
    }
    assert!(bus.check_execute("tutor").is_err());
}

#[test]
fn status_reports_registration() {
    let mut bus = SkillsBus::new();
    bus.install(info("a"));
    bus.install(info("b"));
    bus.install(info("a"));
    bus.register("b").unwrap();
    let st = bus.status();
    assert_eq!(st.len(), 2);
    assert_eq!(st[0].name, "a");
    assert!(!st[0].registered);
    assert!(st[1].registered);
    assert!(st[1].installed);
    assert_eq!(st[1].binds, vec!["gene-scholar".to_string()]);
}
