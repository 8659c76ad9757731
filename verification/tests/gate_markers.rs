use local_cache_proxy::process_action_cache::{
    gate_file_name, is_action_cache_entry, is_admitted, is_cas_entry, marker_file_name,
    process_action_cache_response, process_existing_action_caches, ActionResult, Digest,
    OutputFile,
};

fn digest(hash: &str) -> Option<Digest> {
    Some(Digest { hash: hash.to_string() })
}

fn result() -> ActionResult {
    ActionResult {
        output_files: vec![
            OutputFile { digest: digest("aaa") },
            OutputFile { digest: None },
            OutputFile { digest: digest("bbb") },
        ],
        stdout_digest: digest("out"),
        stderr_digest: digest("err"),
    }
}

#[test]
fn marker_names() {
    assert_eq!(marker_file_name("XYZ"), "enable_cas__XYZ");
    assert_eq!(gate_file_name("cas__XYZ"), "enable_cas__XYZ");
    assert_eq!(gate_file_name("ac__1"), "enable_ac__1");
    assert_eq!(marker_file_name(""), "enable_cas__");
}

#[test]
fn kinds_of_keys() {
    assert!(is_action_cache_entry("ac__1"));
    assert!(!is_action_cache_entry("cas__1"));
    assert!(!is_action_cache_entry("ac_1"));
    assert!(is_cas_entry("cas__1"));
    assert!(!is_cas_entry("ac__1"));
    assert!(!is_cas_entry("enable_cas__1"));
    assert!(!is_cas_entry("cas"));
}

#[test]
fn action_result_unlocks_every_digest_it_names() {
    let markers = process_action_cache_response("ac__123", &result());
    assert_eq!(
        markers,
        vec!["enable_cas__aaa", "enable_cas__bbb", "enable_cas__out", "enable_cas__err"]
    );
}

#[test]
fn action_result_without_output_streams() {
    let a = ActionResult {
        output_files: vec![OutputFile { digest: digest("only") }],
        stdout_digest: None,
        stderr_digest: None,
    };
    assert_eq!(process_action_cache_response("ac__1", &a), vec!["enable_cas__only"]);
    let none = ActionResult { output_files: vec![], stdout_digest: None, stderr_digest: None };
    assert!(process_action_cache_response("ac__1", &none).is_empty());
    let err_only =
        ActionResult { output_files: vec![], stdout_digest: None, stderr_digest: digest("e") };
    assert_eq!(process_action_cache_response("ac__1", &err_only), vec!["enable_cas__e"]);
}

#[test]
fn only_action_cache_entries_are_processed() {
    assert!(process_action_cache_response("cas__123", &result()).is_empty());
    assert!(process_action_cache_response("unknown__index.html", &result()).is_empty());
}

#[test]
fn processing_twice_names_the_same_markers() {
    let first = process_action_cache_response("ac__123", &result());
    let second = process_action_cache_response("ac__123", &result());
    assert_eq!(first, second);
}

#[test]
fn content_addressed_entry_needs_file_or_marker() {
    assert!(!is_admitted("cas__XYZ", None, None));
    assert!(is_admitted("cas__XYZ", None, Some(0)));
    assert!(is_admitted("cas__XYZ", Some(12), None));
    assert!(is_admitted("cas__XYZ", Some(12), Some(0)));
}

#[test]
fn other_entries_are_always_admitted() {
    assert!(is_admitted("ac__XYZ", None, None));
    assert!(is_admitted("unknown__index.html", None, None));
}

#[test]
fn processed_digest_is_admitted_afterwards() {
    let a = ActionResult {
        output_files: vec![OutputFile { digest: digest("XYZ") }],
        stdout_digest: None,
        stderr_digest: None,
    };
    let markers = process_action_cache_response("ac__77", &a);
    assert!(markers.contains(&"enable_cas__XYZ".to_string()));
    let gate = gate_file_name("cas__XYZ");
    let gate_size = if markers.contains(&gate) { Some(0) } else { None };
    assert!(is_admitted("cas__XYZ", None, gate_size));
    let other = gate_file_name("cas__ABC");
    let other_size = if markers.contains(&other) { Some(0) } else { None };
    assert!(!is_admitted("cas__ABC", None, other_size));
}

#[test]
fn sweep_takes_the_action_cache_entries() {
    let names: Vec<String> = ["cas__1", "ac__1", "enable_cas__1", "ac__2", "notes.txt", "ac_3"]
        .iter()
        .map(|s| s.to_string())
        .collect();
    assert_eq!(process_existing_action_caches(&names), vec!["ac__1", "ac__2"]);
    assert!(process_existing_action_caches(&Vec::new()).is_empty());
}
