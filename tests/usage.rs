use model_inspect::onnx::NodeProto;
use model_inspect::usage::operator_usage;

fn node(op: &str, domain: &str) -> NodeProto {
    NodeProto {
        name: String::new(),
        op_type: op.to_string(),
        domain: domain.to_string(),
        input: vec![],
        output: vec![],
    }
}

fn usage(nodes: &Vec<NodeProto>) -> Vec<(String, String, usize)> {
    operator_usage(nodes).into_iter().map(|u| (u.domain, u.name, u.count)).collect()
}

#[test]
fn counts_sum_to_node_count_and_sort_descending() {
    let nodes = vec![
        node("Add", ""),
        node("Mul", ""),
        node("Mul", ""),
        node("Conv", "custom"),
        node("Mul", "ai.onnx"),
        node("Add", ""),
    ];
    let got = usage(&nodes);
    assert_eq!(
        got,
        vec![
            ("ai.onnx".to_string(), "Mul".to_string(), 3),
            ("ai.onnx".to_string(), "Add".to_string(), 2),
            ("custom".to_string(), "Conv".to_string(), 1),
        ]
    );
    assert_eq!(got.iter().map(|u| u.2).sum::<usize>(), nodes.len());
}

#[test]
fn ties_keep_first_seen_order() {
    let nodes = vec![node("C", ""), node("A", ""), node("B", ""), node("A", ""), node("C", ""), node("B", "")];
    let names: Vec<String> = usage(&nodes).into_iter().map(|u| u.1).collect();
    assert_eq!(names, vec!["C".to_string(), "A".to_string(), "B".to_string()]);
}

#[test]
fn empty_graph_has_no_operators() {
    assert!(usage(&vec![]).is_empty());
}

#[test]
fn same_name_in_other_domain_is_another_operator() {
    let nodes = vec![node("Op", "x"), node("Op", "y"), node("Op", "y")];
    assert_eq!(
        usage(&nodes),
        vec![("y".to_string(), "Op".to_string(), 2), ("x".to_string(), "Op".to_string(), 1)]
    );
}
