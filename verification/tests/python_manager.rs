use rustitles::commands::{append_capped, PythonManager, MAX_CAPTURED_OUTPUT_BYTES};

#[test]
fn requires_a_recognized_stable_subliminal_version() {
    for version in [
        "subliminal, version 2.4.0",
        "subliminal 2.5.1",
        "subliminal 3.0.0",
    ] {
        assert!(PythonManager::supported_subliminal_version(version));
    }
    for version in [
        "subliminal 2.3.9",
        "subliminal 2.4.0rc1",
        "Python 3.14.0",
        "subliminal available",
    ] {
        assert!(!PythonManager::supported_subliminal_version(version));
    }
}

#[test]
fn resolved_python_command_is_probed_before_fallbacks() {
    let commands = PythonManager::python_probe_commands(Some("resolved-python"));

    assert_eq!(commands.first().map(String::as_str), Some("resolved-python"));
    assert_eq!(
        commands
            .iter()
            .filter(|command| *command == "resolved-python")
            .count(),
        1
    );
}

#[test]
fn captured_output_keeps_only_the_bounded_tail() {
    let mut captured = Vec::new();
    append_capped(&mut captured, &vec![b'a'; MAX_CAPTURED_OUTPUT_BYTES + 10]);
    append_capped(&mut captured, b"tail");

    assert_eq!(captured.len(), MAX_CAPTURED_OUTPUT_BYTES);
    assert_eq!(&captured[MAX_CAPTURED_OUTPUT_BYTES - 4..], b"tail");
}
