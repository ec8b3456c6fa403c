use tais_core::reply::{review_decision, EvolutionLog, ReviewDecision};
use tais_core::skill_index::{crystallized_names, index_readable, parse_index_text};
use tais_core::user::{active_misconceptions, record_misconception, Misconception};

#[test]
fn prompt_history_keeps_old_and_new() {
    let mut log = EvolutionLog::new();
    assert_eq!(log.current("tutor"), "initial");
    log.update_prompt("tutor", "p1", "rejected");
    log.update_prompt("coach", "c1", "approved");
    log.update_prompt("tutor", "p2", "modified");
    let h = log.history();
    assert_eq!(h.len(), 3);
    assert_eq!((h[0].old_prompt.as_str(), h[0].new_prompt.as_str()), ("initial", "p1"));
    assert_eq!((h[2].old_prompt.as_str(), h[2].new_prompt.as_str(), h[2].action.as_str()), ("p1", "p2", "modified"));
    assert_eq!(log.current("tutor"), "p2");
}

#[test]
fn review_decisions() {
    assert_eq!(review_decision("approved"), ReviewDecision::Approved);
    assert_eq!(review_decision("modified"), ReviewDecision::Modified);
    assert_eq!(review_decision("whatever"), ReviewDecision::Rejected);
}

#[test]
fn crystallized_skill_files() {
    let names: Vec<String> = ["_index.md", "tais_workflow.md", "physics_newton_inquiry.md", "notes.txt", "a.md.md"]
        .iter().map(|s| s.to_string()).collect();
    assert_eq!(crystallized_names(&names), vec!["physics_newton_inquiry".to_string(), "a".to_string()]);
}

#[test]
fn headings_do_not_make_an_index_unreadable() {
    let text = "# a: ] [\n// b: ] [\nphys: 物理 [力]\n";
    assert!(index_readable(text));
    let entries = parse_index_text(text);
    assert_eq!(entries.len(), 1);
    assert_eq!(entries[0].name, "phys");
    assert!(!index_readable("bad: x ] [\n"));
}

fn mis(d: &str, n: u32, resolved: bool) -> Misconception {
    Misconception { description: d.to_string(), related_concept: "c".to_string(), occurrences: n, resolved }
}

#[test]
fn misconceptions_are_counted() {
    let mut list = vec![mis("a", 1, false), mis("b", 2, true)];
    record_misconception(&mut list, "b", "x");
    assert_eq!(list[1].occurrences, 3);
    record_misconception(&mut list, "new", "电学");
    assert_eq!(list.len(), 3);
    assert_eq!((list[2].occurrences, list[2].resolved, list[2].related_concept.as_str()), (1, false, "电学"));
    assert_eq!(active_misconceptions(&list), vec![0, 2]);
}
