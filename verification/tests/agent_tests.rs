use tais_core::agent::{
    advance_checkpoint, checkpoint_injection, gene_update, tally_actions, update_checkpoint, DeployAction, DeployTally,
    LoopPath, LoopState, LoopStatus,
};
use tais_core::goal::GeneProfile;
use tais_core::checkpoint::WorkingCheckpoint;

#[test]
fn new_loop_is_idle_on_the_quality_path() {
    let s = LoopState::new();
    assert_eq!(s.status, LoopStatus::Idle);
    assert_eq!(s.active_path, LoopPath::Quality);
    assert_eq!(s.active_path.name(), "quality");
    assert_eq!((s.iteration, s.total_rounds, s.fast_path_rounds), (0, 0, 0));
}

#[test]
fn fast_path_needs_two_successes_and_good_mastery() {
    let mut s = LoopState::new();
    assert_eq!(s.begin_round(true), LoopPath::Quality);
    s.record_outcome(LoopPath::Quality, true);
    s.finish_round();
    assert_eq!(s.begin_round(true), LoopPath::Quality);
    s.record_outcome(LoopPath::Quality, true);
    s.finish_round();
    assert_eq!(s.begin_round(false), LoopPath::Quality);
    s.finish_round();
    assert_eq!(s.begin_round(true), LoopPath::Fast);
    assert_eq!(s.status, LoopStatus::Running);
    s.record_outcome(LoopPath::Fast, true);
    assert_eq!(s.active_path.name(), "fast");
    assert_eq!((s.iteration, s.total_rounds, s.successful_rounds, s.fast_path_rounds), (4, 3, 3, 1));
}

#[test]
fn two_errors_in_a_row_force_the_quality_path() {
    let mut s = LoopState::new();
    for _ in 0..2 {
        s.begin_round(false);
        s.record_outcome(LoopPath::Quality, true);
    }
    for _ in 0..2 {
        assert_eq!(s.begin_round(true), LoopPath::Fast);
        s.record_outcome(LoopPath::Fast, false);
    }
    assert_eq!(s.consecutive_same_errors, 2);
    assert_eq!(s.begin_round(true), LoopPath::Quality);
    assert_eq!(s.active_path, LoopPath::Quality);
    s.record_outcome(LoopPath::Quality, false);
    assert!(s.streak_calls_for_switch());
    assert!(s.failures_call_for_switch());
    assert_eq!(s.begin_round(true), LoopPath::Quality);
    s.record_outcome(LoopPath::Quality, true);
    assert_eq!(s.consecutive_same_errors, 0);
    assert!(!s.streak_calls_for_switch());
    assert_eq!(s.total_rounds, s.successful_rounds + s.failed_rounds);
    s.record_deploy();
    assert_eq!(s.deployed_strategies, 1);
}

#[test]
fn checkpoint_is_made_then_updated() {
    let mut cp: Option<WorkingCheckpoint> = None;
    assert_eq!(checkpoint_injection(&cp), "");
    update_checkpoint(&mut cp, "步骤1", Some("tais_socratic_tutor.md"));
    let c = cp.as_ref().unwrap();
    assert_eq!(c.key_info, "步骤1");
    assert_eq!(c.related_sop.as_deref(), Some("tais_socratic_tutor.md"));
    update_checkpoint(&mut cp, "步骤2", None);
    let c = cp.as_ref().unwrap();
    assert_eq!(c.key_info, "步骤2");
    assert_eq!(c.related_sop.as_deref(), Some("tais_socratic_tutor.md"));
    assert!(checkpoint_injection(&cp).starts_with("[工作记忆] 步骤2\n"));
    update_checkpoint(&mut cp, "", None);
    assert_eq!(checkpoint_injection(&cp), "");
}

#[test]
fn checkpoint_is_dropped_after_six_rounds() {
    let mut cp: Option<WorkingCheckpoint> = None;
    update_checkpoint(&mut cp, "key", None);
    for n in 1..=5 {
        advance_checkpoint(&mut cp);
        assert_eq!(cp.as_ref().unwrap().passed_sessions, n);
    }
    advance_checkpoint(&mut cp);
    assert!(cp.is_none());
    advance_checkpoint(&mut cp);
    assert!(cp.is_none());
}

#[test]
fn deploy_tally_counts_each_kind() {
    let actions = vec![DeployAction::Deploy, DeployAction::Retire, DeployAction::Deploy, DeployAction::Retain];
    let t = tally_actions(&actions);
    assert_eq!((t.deployed_count, t.retained_count, t.flagged_count, t.retired_count), (2, 1, 0, 1));
    let mut u = DeployTally::new();
    u.record(DeployAction::FlagForReview);
    assert_eq!(u.flagged_count, 1);
    assert_eq!(u.deployed_count + u.retained_count + u.retired_count, 0);
}

#[test]
fn gene_update_follows_the_decision() {
    let g = GeneProfile::default();
    let up = gene_update(DeployAction::Deploy, true, &g).unwrap();
    assert_eq!(up.personality, "mentor");
    assert_eq!(up.thinking, g.thinking);
    let keep = gene_update(DeployAction::Deploy, false, &g).unwrap();
    assert_eq!(keep.personality, g.personality);
    let down = gene_update(DeployAction::Retire, true, &g).unwrap();
    assert_eq!((down.personality.as_str(), down.risk_level.as_str()), ("scholar", "strict"));
    assert!(gene_update(DeployAction::Retain, true, &g).is_none());
    assert!(gene_update(DeployAction::FlagForReview, false, &g).is_none());
}
