use rustitles::data::{InitCheckResult, StartupPhase, SubliminalCommand, SubliminalInstallResult};
use rustitles::startup::DependencyStatus;

fn check(python: bool, pipx: bool, subliminal: bool, ffmpeg: bool) -> InitCheckResult {
    InitCheckResult {
        python_command: if python { Some("python3".to_string()) } else { None },
        python_version: if python { Some("Python 3.12.1".to_string()) } else { None },
        pipx_installed: pipx,
        pipx_version: None,
        subliminal_installed: subliminal,
        subliminal_version: if subliminal { Some("subliminal 2.4.0".to_string()) } else { None },
        subliminal_command: None,
        ffmpeg_installed: ffmpeg,
        homebrew_installed: false,
    }
}

fn installed() -> SubliminalInstallResult {
    SubliminalInstallResult {
        installed: true,
        version: Some("subliminal 2.4.0".to_string()),
        command: Some(SubliminalCommand { program: "subliminal".to_string(), prefix: Vec::new() }),
    }
}

#[test]
fn startup_installs_subliminal_when_only_it_is_missing() {
    let mut state = DependencyStatus::new();
    let action = state.apply_init_check(check(true, true, false, true));
    assert_eq!(state.startup_phase, StartupPhase::Installing);
    assert!(state.installing_subliminal);
    assert!(action.install_subliminal);
    assert_eq!(action.status.as_deref(), Some("Python and pipx detected. Installing Subliminal..."));

    let action = state.apply_subliminal_install(Ok(installed()));
    assert_eq!(state.startup_phase, StartupPhase::Ready);
    assert!(state.subliminal_installed);
    assert!(action.start_background_check);
    assert_eq!(action.status.as_deref(), Some("Subliminal installed."));
    assert!(state.dependencies_ready());
}

#[test]
fn startup_is_over_when_nothing_can_be_installed() {
    let mut state = DependencyStatus::new();
    let action = state.apply_init_check(check(false, false, false, false));
    assert_eq!(state.startup_phase, StartupPhase::Ready);
    assert!(action.start_background_check);
    assert!(!action.install_subliminal);
    assert!(!state.python_installed);
    let again = state.apply_init_check(check(true, true, true, true));
    assert!(again.status.is_none());
    assert!(!state.python_installed);
}

#[test]
fn background_check_reports_completion_and_stops() {
    let mut state = DependencyStatus::new();
    state.apply_init_check(check(true, true, true, false));
    let action = state.apply_background_status(true, installed(), true, false);
    assert_eq!(action.status.as_deref(), Some("All dependencies installed. Ready to download subtitles."));
    assert!(action.stop_background_check);
    assert_eq!(state.startup_phase, StartupPhase::Ready);
}

#[test]
fn pipx_appearing_starts_the_subliminal_installation() {
    let mut state = DependencyStatus::new();
    state.apply_init_check(check(true, false, false, true));
    let action = state.apply_background_status(true, SubliminalInstallResult::default(), true, false);
    assert!(action.install_subliminal);
    assert!(state.installing_subliminal);
    assert_eq!(action.status.as_deref(), Some("pipx detected! Installing Subliminal..."));
    assert!(!action.stop_background_check);
}

#[test]
fn installation_failures_are_reported() {
    let mut state = DependencyStatus::new();
    state.apply_init_check(check(true, false, false, true));
    state.installing_python = true;
    let action = state.apply_python_install(Err("no network".to_string()));
    assert_eq!(action.status.as_deref(), Some("Python install failed: no network"));
    assert!(!state.installing_python);

    let action = state.request_subliminal_install();
    assert_eq!(action.status.as_deref(), Some("Installing Subliminal..."));
    let action = state.apply_subliminal_install(Err("pipx failed".to_string()));
    assert_eq!(action.status.as_deref(), Some("Subliminal install failed: pipx failed"));
    assert!(!state.subliminal_installed);
    assert_eq!(state.startup_phase, StartupPhase::Ready);
}

#[test]
fn a_python_installation_goes_on_to_subliminal() {
    let mut state = DependencyStatus::new();
    state.installing_python = true;
    let action = state.apply_python_install(Ok(Some(("python3".to_string(), "Python 3.13.0".to_string()))));
    assert!(action.install_subliminal);
    assert!(state.python_installed);
    assert_eq!(state.python_version.as_deref(), Some("Python 3.13.0"));
    assert_eq!(action.status.as_deref(), Some("Python installed successfully. Installing Subliminal..."));
}
