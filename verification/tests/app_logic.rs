use rustitles::commands::{latest_non_empty_line, subtitle_policy_args};
use rustitles::data::{verified_subliminal_state, SubliminalInstallResult};
use rustitles::redact::redact_sensitive;

#[test]
fn verified_install_result_preserves_version() {
    let state = verified_subliminal_state(Ok(SubliminalInstallResult {
        installed: true,
        version: Some("subliminal 2.4.0".to_string()),
        command: None,
    }))
    .expect("verified installation should produce dependency state");

    assert_eq!(state, (true, Some("subliminal 2.4.0".to_string()), None));
}

#[test]
fn latest_non_empty_line_keeps_partial_output() {
    assert_eq!(
        latest_non_empty_line("first\nfinal status").as_deref(),
        Some("final status")
    );
}

#[test]
fn redaction_handles_unicode_without_panicking() {
    assert_eq!(
        redact_sensitive("préface password=éclair token=abc apikey = \"secret value\""),
        "préface password=*** token=*** apikey = \"***\""
    );
}

#[test]
fn redaction_accepts_empty_and_truncated_values() {
    for text in [
        "token=\"\"",
        "password=''",
        "apikey=",
        "token=,",
        "token=\"",
    ] {
        assert_eq!(redact_sensitive(text), text);
    }
    assert_eq!(
        redact_sensitive("token=\"\" password=secret"),
        "token=\"\" password=***"
    );
    assert_eq!(redact_sensitive("token=\"unterminated"), "token=\"***");
}

#[test]
fn subtitle_policies_are_independent() {
    for ignore_embedded in [false, true] {
        for overwrite in [false, true] {
            let args = subtitle_policy_args(ignore_embedded, overwrite, true);
            assert_eq!(
                args.iter().any(|arg| arg == "--force-embedded-subtitles"),
                ignore_embedded
            );
            assert_eq!(
                args.iter().any(|arg| arg == "--force-external-subtitles"),
                overwrite
            );
            assert!(!args.iter().any(|arg| arg == "--force"));
            assert!(args.iter().any(|arg| arg == "--language-type-suffix"));
            assert!(args.iter().any(|arg| arg == "--no-hearing-impaired"));
        }
    }
}
