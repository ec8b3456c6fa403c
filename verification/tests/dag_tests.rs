use tais_core::dag::WorkflowDag;
use tais_core::workflow::{NodeInput, WorkflowNode};

fn make_node(id: &str, name: &str) -> WorkflowNode {
    WorkflowNode {
        id: id.into(),
        name: name.into(),
        agent: vec![],
        gene: vec![],
        mcp_tools: vec![],
        input: NodeInput::ReviewReport,
        hitl_trigger: None,
    }
}

fn edge(a: &str, b: &str) -> (String, String) {
    (a.to_string(), b.to_string())
}

#[test]
fn test_dag_order() {
    let a = make_node("A", "诊断");
    let b = make_node("B", "导入");
    let c = make_node("C", "练习");

    let dag = WorkflowDag::build(vec![a, b, c], &[("A".into(), "B".into()), ("B".into(), "C".into())]);

    let order: Vec<_> = dag.execution_order().iter().map(|n| n.name.as_str()).collect();
    assert_eq!(order, vec!["诊断", "导入", "练习"]);
    assert_eq!(dag.node_count(), 3);
}

#[test]
fn dag_order_follows_links_not_positions() {
    let dag = WorkflowDag::build(
        vec![make_node("C", "练习"), make_node("A", "诊断"), make_node("B", "导入")],
        &[edge("A", "B"), edge("B", "C")],
    );
    let order: Vec<_> = dag.execution_order().iter().map(|n| n.id.as_str()).collect();
    assert_eq!(order, vec!["A", "B", "C"]);
}

#[test]
fn dag_drops_links_with_unknown_ids() {
    let dag = WorkflowDag::build(vec![make_node("A", "a"), make_node("B", "b")], &[edge("A", "Z"), edge("Y", "B")]);
    assert_eq!(dag.node_count(), 2);
    assert_eq!(dag.execution_order().len(), 2);
    assert!(dag.predecessors("A").is_empty());
    assert!(dag.predecessors("Y").is_empty());
}

#[test]
fn dag_cycle_leaves_its_nodes_out() {
    let dag = WorkflowDag::build(
        vec![make_node("A", "a"), make_node("B", "b"), make_node("C", "c")],
        &[edge("A", "B"), edge("B", "A")],
    );
    let order: Vec<_> = dag.execution_order().iter().map(|n| n.id.as_str()).collect();
    assert_eq!(order, vec!["C"]);
}

#[test]
fn dag_predecessors_lists_the_nodes_that_must_finish_first() {
    let dag = WorkflowDag::build(
        vec![make_node("A", "a"), make_node("B", "b"), make_node("C", "c")],
        &[edge("A", "B"), edge("A", "C"), edge("B", "C")],
    );
    let before_c: Vec<_> = dag.predecessors("C").iter().map(|n| n.id.as_str()).collect();
    assert_eq!(before_c, vec!["A", "B"]);
    let before_b: Vec<_> = dag.predecessors("B").iter().map(|n| n.id.as_str()).collect();
    assert_eq!(before_b, vec!["A"]);
    assert!(dag.predecessors("A").is_empty());
}

#[test]
fn dag_chain_predecessors() {
    let dag = WorkflowDag::build(
        vec![make_node("A", "a"), make_node("B", "b"), make_node("C", "c")],
        &[edge("A", "B"), edge("B", "C")],
    );
    let before_b: Vec<_> = dag.predecessors("B").iter().map(|n| n.id.as_str()).collect();
    assert_eq!(before_b, vec!["A"]);
    assert!(dag.predecessors("A").is_empty());
}

#[test]
fn dag_repeated_id_attaches_to_the_last_node() {
    let dag = WorkflowDag::build(
        vec![make_node("A", "first"), make_node("A", "second"), make_node("B", "b")],
        &[edge("B", "A")],
    );
    let before_a: Vec<_> = dag.predecessors("A").iter().map(|n| n.name.as_str()).collect();
    assert_eq!(before_a, vec!["b"]);
    assert!(dag.predecessors("B").is_empty());
    let order: Vec<_> = dag.execution_order().iter().map(|n| n.name.as_str()).collect();
    assert_eq!(order.len(), 3);
    let pos_b = order.iter().position(|n| *n == "b").unwrap();
    let pos_second = order.iter().position(|n| *n == "second").unwrap();
    assert!(pos_b < pos_second);
}
