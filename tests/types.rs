use model_inspect::types::{
    render_type, DataType, Dimension, DimensionValue, TensorType, TypeError, TypeInfo, TypeProto,
    TypeValue,
};

fn dim_value(v: i64) -> Dimension {
    Dimension { value: Some(DimensionValue::DimValue(v)) }
}

fn dim_param(p: &str) -> Dimension {
    Dimension { value: Some(DimensionValue::DimParam(p.to_string())) }
}

fn tensor(elem_type: i32, shape: Option<Vec<Dimension>>) -> TypeProto {
    TypeProto { value: Some(TypeValue::TensorType(TensorType { elem_type, shape })) }
}

#[test]
fn renders_symbolic_and_literal_dims() {
    let t = tensor(1, Some(vec![dim_param("batch"), dim_value(128)]));
    assert_eq!(render_type(&t).unwrap(), "f32[batch,128]");
}

#[test]
fn renders_rank_zero_tensor_without_brackets() {
    assert_eq!(render_type(&tensor(1, Some(vec![]))).unwrap(), "f32");
    assert_eq!(render_type(&tensor(1, None)).unwrap(), "f32");
}

#[test]
fn renders_unknown_dim_as_question_mark() {
    let t = tensor(1, Some(vec![Dimension { value: None }]));
    assert_eq!(render_type(&t).unwrap(), "f32[?]");
}

#[test]
fn renders_negative_and_large_dims() {
    let t = tensor(7, Some(vec![dim_value(-1), dim_value(0), dim_value(i64::MIN), dim_value(i64::MAX)]));
    assert_eq!(
        render_type(&t).unwrap(),
        "i64[-1,0,-9223372036854775808,9223372036854775807]"
    );
}

#[test]
fn renders_element_keywords() {
    let cases = [
        (0, "undefined"), (1, "f32"), (2, "u8"), (3, "i8"), (4, "u16"), (5, "i16"), (6, "i32"),
        (7, "i64"), (8, "string"), (9, "bool"), (10, "f16"), (11, "f64"), (12, "u32"),
        (13, "u64"), (14, "complex64"), (15, "complex128"), (16, "bfloat16"),
        (17, "f8e4m3fn"), (18, "f8e4m3fnuz"), (19, "f8e5m2"), (20, "f8e5m2fnuz"),
    ];
    for (code, kw) in cases {
        assert_eq!(render_type(&tensor(code, None)).unwrap(), kw);
        assert_eq!(DataType::from_i32(code).unwrap().keyword(), kw);
    }
    assert!(DataType::from_i32(21).is_none());
    assert!(DataType::from_i32(-1).is_none());
}

#[test]
fn renders_nested_descriptors() {
    let inner = tensor(11, Some(vec![dim_value(3)]));
    let seq = TypeProto { value: Some(TypeValue::SequenceType { elem_type: Some(Box::new(inner)) }) };
    let map = TypeProto {
        value: Some(TypeValue::MapType { key_type: 8, value_type: Some(Box::new(seq)) }),
    };
    let opt = TypeProto { value: Some(TypeValue::OptionalType { elem_type: Some(Box::new(map)) }) };
    assert_eq!(render_type(&opt).unwrap(), "optional<map<string,sequence<f64[3]>>>");
}

#[test]
fn renders_missing_inner_types_as_double_question_mark() {
    let seq = TypeProto { value: Some(TypeValue::SequenceType { elem_type: None }) };
    assert_eq!(render_type(&seq).unwrap(), "sequence<??>");
    let map = TypeProto { value: Some(TypeValue::MapType { key_type: 7, value_type: None }) };
    assert_eq!(render_type(&map).unwrap(), "map<i64,??>");
    let opt = TypeProto { value: Some(TypeValue::OptionalType { elem_type: None }) };
    assert_eq!(render_type(&opt).unwrap(), "optional<??>");
}

#[test]
fn sparse_tensor_is_refused() {
    let t = TypeProto {
        value: Some(TypeValue::SparseTensorType(TensorType { elem_type: 1, shape: None })),
    };
    assert_eq!(render_type(&t), Err(TypeError::SparseTensor));
}

#[test]
fn nested_failures_are_reported() {
    let bad = tensor(99, None);
    assert_eq!(render_type(&bad), Err(TypeError::UnknownDataType(99)));
    let seq = TypeProto { value: Some(TypeValue::SequenceType { elem_type: Some(Box::new(bad)) }) };
    assert_eq!(render_type(&seq), Err(TypeError::UnknownDataType(99)));
    assert_eq!(render_type(&TypeProto { value: None }), Err(TypeError::MissingValue));
    let map = TypeProto { value: Some(TypeValue::MapType { key_type: 42, value_type: None }) };
    assert_eq!(render_type(&map), Err(TypeError::UnknownDataType(42)));
}

#[test]
fn rendering_is_deterministic() {
    let t = tensor(1, Some(vec![dim_param("n"), Dimension { value: None }, dim_value(4)]));
    let first = TypeInfo(&t).render().unwrap();
    let second = TypeInfo(&t).render().unwrap();
    assert_eq!(first, second);
    assert_eq!(first, "f32[n,?,4]");
}
