use model_inspect::safetensors::{ArchiveError, Safetensors};

fn archive(header: &str, payload: &[u8]) -> Vec<u8> {
    let mut data = (header.len() as u64).to_le_bytes().to_vec();
    data.extend_from_slice(header.as_bytes());
    data.extend_from_slice(payload);
    data
}

#[test]
fn header_length_past_end_is_refused() {
    let mut data = archive("{}", &[]);
    data[0] = 3;
    assert!(matches!(Safetensors::from_bytes(&data), Err(ArchiveError::HeaderTooLarge)));
    let mut huge = vec![0xffu8; 8];
    huge.extend_from_slice(b"{}");
    assert!(matches!(Safetensors::from_bytes(&huge), Err(ArchiveError::HeaderTooLarge)));
}

#[test]
fn short_buffer_is_refused() {
    assert!(matches!(Safetensors::from_bytes(&[1, 0, 0]), Err(ArchiveError::Truncated)));
    assert!(matches!(Safetensors::from_bytes(&[]), Err(ArchiveError::Truncated)));
}

#[test]
fn header_must_be_a_json_object() {
    let data = archive("[1, 2]", &[]);
    assert!(matches!(Safetensors::from_bytes(&data), Err(ArchiveError::InvalidHeader)));
    let data = archive("{not json", &[]);
    assert!(matches!(Safetensors::from_bytes(&data), Err(ArchiveError::InvalidHeader)));
}

#[test]
fn metadata_is_split_from_tensors() {
    let header = r#"{"__metadata__":{"modelspec.architecture":"foo"}, "w":{"dtype":"F32","shape":[2],"data_offsets":[0,8]}}"#;
    let data = archive(header, &[0u8; 8]);
    let st = Safetensors::from_bytes(&data).unwrap();
    assert_eq!(st.tensor_names(), vec!["w".to_string()]);
    let s = st.summary(Some("model.safetensors"));
    assert_eq!(s.architecture.as_deref(), Some("foo"));
    assert_eq!(s.implementation, None);
    assert_eq!(s.filename.as_deref(), Some("model.safetensors"));
    assert_eq!(s.tensors.len(), 1);
    assert_eq!(s.metadata.len(), 1);
}

#[test]
fn header_without_metadata() {
    let data = archive(r#"{"a":{},"b":{}}"#, &[]);
    let st = Safetensors::from_bytes(&data).unwrap();
    let mut names = st.tensor_names();
    names.sort();
    assert_eq!(names, vec!["a".to_string(), "b".to_string()]);
    let s = st.summary(None);
    assert_eq!(s.filename, None);
    assert_eq!(s.architecture, None);
    assert!(st.metadata().is_empty());
}

#[test]
fn metadata_that_is_not_an_object_is_dropped() {
    let data = archive(r#"{"__metadata__":"oops","t":{}}"#, &[]);
    let st = Safetensors::from_bytes(&data).unwrap();
    assert!(st.metadata().is_empty());
    assert_eq!(st.tensor_names(), vec!["t".to_string()]);
}

#[test]
fn non_string_metadata_values_are_not_shown() {
    let data = archive(
        r#"{"__metadata__":{"modelspec.architecture":7,"modelspec.implementation":"impl"}}"#,
        &[],
    );
    let st = Safetensors::from_bytes(&data).unwrap();
    let s = st.summary(None);
    assert_eq!(s.architecture, None);
    assert_eq!(s.implementation.as_deref(), Some("impl"));
    assert!(st.tensors().is_empty());
}
