use rustitles::installer::{InstallStep, Platform, StepResult, SubliminalInstaller};

fn exited(success: bool, stderr: &str) -> StepResult {
    StepResult::Exited {
        success,
        status: "exit status: 1".to_string(),
        stderr: stderr.to_string(),
    }
}

#[test]
fn installation_uses_pipx_when_it_runs() {
    let mut installer = SubliminalInstaller::new(Platform::Linux);
    let (program, args, probe) = installer.command().unwrap();
    assert_eq!((program.as_str(), probe), ("pipx", true));
    assert_eq!(args, vec!["--version"]);
    installer.advance(exited(true, ""));
    assert_eq!(installer.step, InstallStep::InstallWithPipx);
    let (program, args, probe) = installer.command().unwrap();
    assert_eq!((program.as_str(), probe), ("pipx", false));
    assert_eq!(args, vec!["install", "--force", "subliminal>=2.4.0"]);
    installer.advance(exited(true, ""));
    assert!(installer.command().is_none());
    assert_eq!(installer.outcome, Some(Ok(())));
}

#[test]
fn installation_reports_the_last_failure() {
    let mut installer = SubliminalInstaller::new(Platform::Linux);
    installer.advance(exited(false, ""));
    let mut programs = Vec::new();
    while let Some((program, _, _)) = installer.command() {
        programs.push(program);
        installer.advance(exited(false, "  no luck \n"));
    }
    assert_eq!(
        programs,
        vec!["python3", "python", "apt", "dnf", "pacman", "pipx", "python3", "python"]
    );
    assert_eq!(
        installer.outcome,
        Some(Err("python pip exited with exit status: 1: no luck".to_string()))
    );
}

#[test]
fn installation_skips_pipx_setup_when_pipx_cannot_be_checked() {
    let mut installer = SubliminalInstaller::new(Platform::Linux);
    installer.advance(StepResult::Error("not found".to_string()));
    assert_eq!(installer.step, InstallStep::InstallWithPipx);
    installer.advance(StepResult::Error("No such file".to_string()));
    assert_eq!(installer.step, InstallStep::InstallWithPip(0));
    assert_eq!(installer.last_error.as_deref(), Some("pipx: No such file"));
    installer.advance(exited(true, ""));
    assert_eq!(installer.outcome, Some(Ok(())));
}

#[test]
fn macos_installs_with_pipx_alone() {
    let mut installer = SubliminalInstaller::new(Platform::MacOs);
    let (program, args, probe) = installer.command().unwrap();
    assert_eq!((program.as_str(), probe), ("pipx", false));
    assert_eq!(args, vec!["install", "--force", "subliminal>=2.4.0"]);
    installer.advance(StepResult::Error("No such file".to_string()));
    assert!(installer.command().is_none());
    assert_eq!(installer.outcome, Some(Err("No such file".to_string())));
}

#[test]
fn windows_tries_the_pip_of_each_python() {
    let mut installer = SubliminalInstaller::new(Platform::Windows);
    let mut programs = Vec::new();
    while let Some((program, args, _)) = installer.command() {
        assert_eq!(args, vec!["-m", "pip", "install", "--upgrade", "subliminal>=2.4.0"]);
        programs.push(program);
        installer.advance(exited(false, "boom"));
    }
    assert_eq!(programs, vec!["python", "py", "python3"]);
    assert_eq!(
        installer.outcome,
        Some(Err("python3 exited with exit status: 1: boom".to_string()))
    );
}
