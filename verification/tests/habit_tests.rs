use tais_core::habit::{condition_met, find_rule, select_logs, trigger_result, ConditionTest, HabitAction, TriggerFacts};
use tais_core::user::{account_conflict, find_account};

fn facts() -> TriggerFacts {
    TriggerFacts {
        consecutive_errors: None,
        composite_below: false,
        high_risk: false,
        multi_agent: false,
        output_changed: false,
        dialogue_ended: false,
        evolution_triggered: false,
        force: false,
    }
}

#[test]
fn error_pattern_needs_enough_errors() {
    let c = ConditionTest::ErrorPattern { consecutive_errors: 3 };
    assert!(!condition_met(c, &facts()));
    assert!(!condition_met(c, &TriggerFacts { consecutive_errors: Some(2), ..facts() }));
    assert!(condition_met(c, &TriggerFacts { consecutive_errors: Some(3), ..facts() }));
    assert!(condition_met(ConditionTest::Always, &facts()));
}

#[test]
fn flags_and_schedule() {
    assert!(condition_met(ConditionTest::HighRiskOperation, &TriggerFacts { high_risk: true, ..facts() }));
    assert!(!condition_met(ConditionTest::MultiAgentMode, &TriggerFacts { high_risk: true, ..facts() }));
    assert!(!condition_met(ConditionTest::ScheduledTime, &facts()));
    assert!(condition_met(ConditionTest::ScheduledTime, &TriggerFacts { force: true, ..facts() }));
    assert!(condition_met(ConditionTest::CompositeBelow, &TriggerFacts { composite_below: true, ..facts() }));
}

#[test]
fn trigger_results() {
    assert_eq!(trigger_result(HabitAction::SafetyChecklist, true), "Executed mandatory safety checklist for high-risk operation");
    assert_eq!(trigger_result(HabitAction::SafetyChecklist, false), "condition not met — skipped");
}

#[test]
fn rules_are_found_by_id() {
    let ids = vec!["H01".to_string(), "H02".to_string()];
    assert_eq!(find_rule(&ids, "H02"), Ok(1));
    assert_eq!(find_rule(&ids, "H09"), Err("Habit rule not found: H09".to_string()));
}

#[test]
fn logs_filtered_and_limited() {
    let rules: Vec<String> = ["H01", "H02", "H01", "H01"].iter().map(|s| s.to_string()).collect();
    assert_eq!(select_logs(&rules, Some("H01"), 0), vec![3, 2, 0]);
    assert_eq!(select_logs(&rules, Some("H01"), 2), vec![3, 2]);
    assert_eq!(select_logs(&rules, None, 3), vec![3, 2, 1]);
    assert!(select_logs(&rules, Some("H07"), 5).is_empty());
}

#[test]
fn accounts_refused_when_id_or_name_taken() {
    let ids = vec!["alice".to_string(), "bob".to_string()];
    let names = vec![Some("小红".to_string()), None];
    assert_eq!(account_conflict(&ids, &names, "bob", Some("x")), Some("用户名 'bob' 已存在".to_string()));
    assert_eq!(account_conflict(&ids, &names, "carol", Some("小红")), Some("显示名 '小红' 已被使用".to_string()));
    assert_eq!(account_conflict(&ids, &names, "carol", None), None);
    assert_eq!(find_account(&ids, &names, "小红"), Some(0));
    assert_eq!(find_account(&ids, &names, "bob"), Some(1));
    assert_eq!(find_account(&ids, &names, "dave"), None);
}
