use model_inspect::onnx::{
    GraphProto, ModelError, ModelProto, NodeProto, OnnxModel, OperatorSetIdProto, TensorProto,
    ValueInfoProto, ValueSource,
};
use model_inspect::registry::IdMapper;
use model_inspect::summary::SummaryError;
use model_inspect::types::{Dimension, DimensionValue, TensorType, TypeProto, TypeValue};

fn f32_type(dims: &[i64]) -> TypeProto {
    let shape = dims
        .iter()
        .map(|d| Dimension { value: Some(DimensionValue::DimValue(*d)) })
        .collect();
    TypeProto { value: Some(TypeValue::TensorType(TensorType { elem_type: 1, shape: Some(shape) })) }
}

fn value(name: &str, ty: Option<TypeProto>) -> ValueInfoProto {
    ValueInfoProto { name: name.to_string(), ty }
}

fn node(name: &str, op: &str, domain: &str, inputs: &[&str], outputs: &[&str]) -> NodeProto {
    NodeProto {
        name: name.to_string(),
        op_type: op.to_string(),
        domain: domain.to_string(),
        input: inputs.iter().map(|s| s.to_string()).collect(),
        output: outputs.iter().map(|s| s.to_string()).collect(),
    }
}

fn model(graph: Option<GraphProto>) -> ModelProto {
    ModelProto {
        ir_version: 8,
        opset_import: vec![
            OperatorSetIdProto { domain: String::new(), version: 17 },
            OperatorSetIdProto { domain: "com.example".to_string(), version: 1 },
        ],
        producer_name: "maker".to_string(),
        producer_version: "1.2".to_string(),
        domain: "org.example".to_string(),
        model_version: 3,
        doc_string: "a model".to_string(),
        graph,
    }
}

fn graph(
    nodes: Vec<NodeProto>,
    inits: &[&str],
    inputs: Vec<ValueInfoProto>,
    outputs: Vec<ValueInfoProto>,
    value_info: Vec<ValueInfoProto>,
) -> GraphProto {
    GraphProto {
        name: "g".to_string(),
        node: nodes,
        initializer: inits.iter().map(|n| TensorProto { name: n.to_string() }).collect(),
        input: inputs,
        output: outputs,
        value_info,
    }
}

#[test]
fn missing_graph_is_an_error() {
    assert!(matches!(OnnxModel::from_proto(model(None)), Err(ModelError::MissingGraph)));
}

#[test]
fn two_node_linear_graph() {
    let g = graph(
        vec![
            node("A", "Constant", "", &[], &["a_out"]),
            node("B", "Relu", "", &["a_out"], &["y"]),
        ],
        &[],
        vec![],
        vec![value("y", Some(f32_type(&[2])))],
        vec![value("a_out", Some(f32_type(&[2])))],
    );
    let m = OnnxModel::from_proto(model(Some(g))).unwrap();
    assert_eq!(m.dependency_count(), 1);
    assert_eq!(m.dependency_node_count(), 2);
    assert!(m.dependency(0, 1).is_some());
    assert!(m.dependency(1, 0).is_none());
    assert!(m.true_inputs().is_empty());
    let outs = m.outputs();
    assert_eq!(outs.len(), 1);
    assert_eq!(outs[0].name(), "y");
    assert_eq!(outs[0].source, Some(ValueSource::Node(1)));
}

#[test]
fn unregistered_intermediate_value_gives_no_edge() {
    let g = graph(
        vec![node("A", "Constant", "", &[], &["a_out"]), node("B", "Relu", "", &["a_out"], &["y"])],
        &[],
        vec![],
        vec![value("y", None)],
        vec![],
    );
    let m = OnnxModel::from_proto(model(Some(g))).unwrap();
    assert_eq!(m.dependency_count(), 0);
    assert_eq!(m.dependency_node_count(), 2);
}

#[test]
fn edge_weight_is_the_carried_value() {
    let g = graph(
        vec![node("A", "Constant", "", &[], &["a_out"]), node("B", "Relu", "", &["a_out"], &["y"])],
        &[],
        vec![],
        vec![value("y", None)],
        vec![value("a_out", None)],
    );
    let m = OnnxModel::from_proto(model(Some(g))).unwrap();
    // value-info entries come first, so "a_out" has id 0
    assert_eq!(m.dependency(0, 1), Some(0));
}

#[test]
fn input_bound_to_initializer_is_not_a_runtime_input() {
    let g = graph(vec![], &["w"], vec![value("w", Some(f32_type(&[3])))], vec![], vec![]);
    let m = OnnxModel::from_proto(model(Some(g))).unwrap();
    assert!(m.true_inputs().is_empty());
    assert_eq!(m.declared_input_count(), 1);
    let ins = m.inputs();
    assert_eq!(ins.len(), 1);
    assert_eq!(ins[0].source, Some(ValueSource::Initializer(0)));
}

#[test]
fn input_binds_to_last_initializer_of_its_name() {
    let g = graph(vec![], &["w", "b", "w"], vec![value("w", None), value("x", None)], vec![], vec![]);
    let m = OnnxModel::from_proto(model(Some(g))).unwrap();
    let ins = m.inputs();
    assert_eq!(ins[0].source, Some(ValueSource::Initializer(2)));
    assert_eq!(ins[1].source, None);
    let runtime = m.true_inputs();
    assert_eq!(runtime.len(), 1);
    assert_eq!(runtime[0].name(), "x");
}

#[test]
fn first_producer_wins() {
    let g = graph(
        vec![
            node("P1", "Add", "", &["x"], &["t"]),
            node("P2", "Mul", "", &["x"], &["t"]),
            node("C", "Relu", "", &["t"], &["y"]),
        ],
        &[],
        vec![value("x", None)],
        vec![value("y", None)],
        vec![value("t", None)],
    );
    let m = OnnxModel::from_proto(model(Some(g))).unwrap();
    assert!(m.dependency(0, 2).is_some());
    assert!(m.dependency(1, 2).is_none());
    assert_eq!(m.dependency_count(), 1);
}

#[test]
fn initializer_binding_is_not_overwritten_by_a_producer() {
    let g = graph(
        vec![node("P", "Identity", "", &[], &["w"]), node("C", "Relu", "", &["w"], &["y"])],
        &["w"],
        vec![value("w", None)],
        vec![value("y", None)],
        vec![],
    );
    let m = OnnxModel::from_proto(model(Some(g))).unwrap();
    assert_eq!(m.inputs()[0].source, Some(ValueSource::Initializer(0)));
    assert_eq!(m.dependency_count(), 0);
}

#[test]
fn repeated_input_gives_one_edge() {
    let g = graph(
        vec![node("A", "Constant", "", &[], &["a"]), node("B", "Add", "", &["a", "a"], &["y"])],
        &[],
        vec![],
        vec![value("y", None)],
        vec![value("a", None)],
    );
    let m = OnnxModel::from_proto(model(Some(g))).unwrap();
    assert_eq!(m.dependency_count(), 1);
}

#[test]
fn summary_lists_model_facts() {
    let g = graph(
        vec![
            node("n0", "Relu", "", &["x"], &["a"]),
            node("n1", "Conv", "", &["a", "w"], &["b"]),
            node("n2", "Relu", "ai.onnx", &["b"], &["c"]),
            node("n3", "Custom", "com.example", &["c"], &["y"]),
        ],
        &["w"],
        vec![value("x", Some(f32_type(&[1, 3]))), value("w", Some(f32_type(&[3])))],
        vec![value("y", Some(f32_type(&[1])))],
        vec![],
    );
    let m = OnnxModel::from_proto(model(Some(g))).unwrap();
    let s = m.summary().unwrap();
    assert_eq!(s.domain, "org.example");
    assert_eq!(s.name, "g");
    assert_eq!(s.version, 3);
    assert_eq!(s.doc_string, "a model");
    assert_eq!(s.producer_name, "maker");
    assert_eq!(s.producer_version, "1.2");
    assert_eq!(s.ir_version, 8);
    assert_eq!(s.opsets.len(), 2);
    assert_eq!(s.opsets[0].name, "ai.onnx");
    assert_eq!(s.opsets[0].version, 17);
    assert_eq!(s.opsets[1].name, "com.example");
    assert_eq!(s.inputs.len(), 1);
    assert_eq!(s.inputs[0].name, "x");
    assert_eq!(s.inputs[0].ty, "f32[1,3]");
    assert_eq!(s.outputs.len(), 1);
    assert_eq!(s.outputs[0].name, "y");
    assert_eq!(s.outputs[0].ty, "f32[1]");
    let ops: Vec<(String, String, usize)> = s
        .operators
        .iter()
        .map(|o| (o.domain.clone(), o.name.clone(), o.count))
        .collect();
    assert_eq!(
        ops,
        vec![
            ("ai.onnx".to_string(), "Relu".to_string(), 2),
            ("ai.onnx".to_string(), "Conv".to_string(), 1),
            ("com.example".to_string(), "Custom".to_string(), 1),
        ]
    );
}

#[test]
fn summary_fails_on_untyped_value() {
    let g = graph(vec![], &[], vec![value("x", None)], vec![], vec![]);
    let m = OnnxModel::from_proto(model(Some(g))).unwrap();
    assert!(matches!(m.summary(), Err(SummaryError::MissingType)));
}

#[test]
fn registry_name_lookup_takes_newest_id_lookup_keeps_oldest() {
    let mut r: IdMapper<u32> = IdMapper::new();
    assert_eq!(r.insert("a", 1), 0);
    assert_eq!(r.insert("b", 2), 1);
    assert_eq!(r.insert("a", 3), 2);
    assert_eq!(r.len(), 3);
    assert_eq!(r.get_id_by_name("a"), Some(2));
    assert_eq!(r.get_by_name("a"), Some(&3));
    assert_eq!(*r.get_by_id(0), 1);
    assert_eq!(r.get_id_by_name("c"), None);
    assert!(r.get_by_name("c").is_none());
    if let Some(v) = r.get_by_name_mut("b") {
        *v = 20;
    }
    assert_eq!(*r.get_by_id(1), 20);
    assert!(r.get_by_name_mut("zz").is_none());
}
