use rustdown::fence::consume_fence_delimiter;

#[test]
fn consume_fence_delimiter_supports_backtick_fences_with_info() {
    let mut state = None;
    assert!(consume_fence_delimiter("```azurecli", &mut state));
    assert!(state.is_some());
    assert!(!consume_fence_delimiter("az aks list", &mut state));
    assert!(state.is_some());
    assert!(consume_fence_delimiter("```", &mut state));
    assert!(state.is_none());
}

#[test]
fn consume_fence_delimiter_supports_tilde_fences() {
    let mut state = None;
    assert!(consume_fence_delimiter("~~~bash", &mut state));
    assert!(state.is_some());
    assert!(!consume_fence_delimiter("~~~~not-a-close", &mut state));
    assert!(state.is_some());
    assert!(consume_fence_delimiter("~~~~", &mut state));
    assert!(state.is_none());
}

#[test]
fn consume_fence_delimiter_requires_matching_marker_and_length_to_close() {
    let mut state = None;
    assert!(consume_fence_delimiter("~~~~", &mut state));
    assert!(!consume_fence_delimiter("```", &mut state));
    assert!(state.is_some());
    assert!(!consume_fence_delimiter("~~~", &mut state));
    assert!(state.is_some());
    assert!(consume_fence_delimiter("~~~~", &mut state));
    assert!(state.is_none());
}

#[test]
fn consume_fence_delimiter_ignores_non_fence_lines() {
    let mut state = None;
    assert!(!consume_fence_delimiter("`inline`", &mut state));
    assert!(!consume_fence_delimiter("~~", &mut state));
    assert!(!consume_fence_delimiter("plain text", &mut state));
    assert!(state.is_none());
}

#[test]
fn fence_opening_records_marker_and_length() {
    let mut state = None;
    assert!(consume_fence_delimiter("   ````rust", &mut state));
    let open = state.expect("fence should be open");
    assert_eq!(open.marker, '`');
    assert_eq!(open.marker_len, 4);
    assert!(consume_fence_delimiter("`````  \t", &mut state));
    assert!(state.is_none());
}
