//! The order in which a Subliminal installation is attempted. On Linux: check pipx, install
//! pipx when it is missing, install Subliminal with pipx, and fall back to pip. On macOS: install
//! Subliminal with pipx. On Windows: install it with the pip of each Python command in turn.
//! Each step runs one command; its result decides the next step and the error that is reported
//! when every attempt fails.

use vstd::prelude::*;
use crate::text::{push_str, trim, trim_chars, string_of, chars_of, texts};

verus! {

/// The operating system the installation runs on.
#[derive(Clone, Copy, Debug, PartialEq, Eq)]
pub enum Platform {
    Linux,
    MacOs,
    Windows,
}

/// A step of the installation.
#[derive(Clone, Copy, Debug, PartialEq, Eq)]
pub enum InstallStep {
    /// Check whether pipx runs.
    CheckPipx,
    /// Try the given way of installing pipx.
    InstallPipx(usize),
    /// Install Subliminal with pipx.
    InstallWithPipx,
    /// Install Subliminal with the given Python's pip.
    InstallWithPip(usize),
    /// Nothing more to run.
    Finished,
}

/// How a step's command ended.
pub enum StepResult {
    /// It ran: whether it succeeded, its exit status as shown, and its error output.
    Exited { success: bool, status: String, stderr: String },
    /// It could not be run, for the reason shown.
    Error(String),
}

/// The ways of installing pipx, tried in order (on Linux).
pub open spec fn pipx_install_count() -> nat {
    5
}

/// The Python commands whose pip is tried.
pub open spec fn pip_count(platform: Platform) -> nat {
    match platform {
        Platform::Linux => 2,
        Platform::MacOs => 0,
        Platform::Windows => 3,
    }
}

/// Where a step stands in the order of the installation.
pub open spec fn step_rank(step: InstallStep) -> int {
    match step {
        InstallStep::CheckPipx => 0,
        InstallStep::InstallPipx(i) => 1 + i,
        InstallStep::InstallWithPipx => 6,
        InstallStep::InstallWithPip(i) => 7 + i,
        InstallStep::Finished => 10,
    }
}

/// A step that can be run on `platform`.
pub open spec fn valid_step(platform: Platform, step: InstallStep) -> bool {
    match step {
        InstallStep::CheckPipx => platform is Linux,
        InstallStep::InstallPipx(i) => platform is Linux && i < pipx_install_count(),
        InstallStep::InstallWithPipx => !(platform is Windows),
        InstallStep::InstallWithPip(i) => i < pip_count(platform),
        InstallStep::Finished => true,
    }
}

/// The step an installation starts with.
pub open spec fn first_step(platform: Platform) -> InstallStep {
    match platform {
        Platform::Linux => InstallStep::CheckPipx,
        Platform::MacOs => InstallStep::InstallWithPipx,
        Platform::Windows => InstallStep::InstallWithPip(0),
    }
}

/// The step after `step`, given whether its command ran (`ran`) and whether it succeeded
/// (`ok`).
pub open spec fn next_step_spec(platform: Platform, step: InstallStep, ran: bool, ok: bool) -> InstallStep {
    match step {
        InstallStep::CheckPipx => if ran && !ok {
            InstallStep::InstallPipx(0)
        } else {
            InstallStep::InstallWithPipx
        },
        InstallStep::InstallPipx(i) => if ok || i + 1 >= pipx_install_count() {
            InstallStep::InstallWithPipx
        } else {
            InstallStep::InstallPipx((i + 1) as usize)
        },
        InstallStep::InstallWithPipx => if ok || pip_count(platform) == 0 {
            InstallStep::Finished
        } else {
            InstallStep::InstallWithPip(0)
        },
        InstallStep::InstallWithPip(i) => if ok || i + 1 >= pip_count(platform) {
            InstallStep::Finished
        } else {
            InstallStep::InstallWithPip((i + 1) as usize)
        },
        InstallStep::Finished => InstallStep::Finished,
    }
}

/// The program of each way of installing pipx.
pub open spec fn pipx_attempt_program(i: int) -> Seq<char> {
    if i == 0 {
        "python3"@
    } else if i == 1 {
        "python"@
    } else if i == 2 {
        "apt"@
    } else if i == 3 {
        "dnf"@
    } else {
        "pacman"@
    }
}

/// The Python whose pip is tried `i`-th.
pub open spec fn pip_program(platform: Platform, i: int) -> Seq<char> {
    if platform is Windows {
        if i == 0 {
            "python"@
        } else if i == 1 {
            "py"@
        } else {
            "python3"@
        }
    } else if i == 0 {
        "python3"@
    } else {
        "python"@
    }
}

/// The program a step runs.
pub open spec fn step_program(platform: Platform, step: InstallStep) -> Seq<char> {
    match step {
        InstallStep::CheckPipx => "pipx"@,
        InstallStep::InstallPipx(i) => pipx_attempt_program(i as int),
        InstallStep::InstallWithPipx => "pipx"@,
        InstallStep::InstallWithPip(i) => pip_program(platform, i as int),
        InstallStep::Finished => Seq::empty(),
    }
}

/// The arguments a step runs its program with.
pub open spec fn step_args(platform: Platform, step: InstallStep) -> Seq<Seq<char>> {
    match step {
        InstallStep::CheckPipx => seq!["--version"@],
        InstallStep::InstallPipx(i) => if i < 2 {
            seq!["-m"@, "pip"@, "install"@, "--user"@, "pipx"@]
        } else if i == 2 {
            seq!["install"@, "-y"@, "pipx"@]
        } else if i == 3 {
            seq!["install"@, "-y"@, "python3-pipx"@]
        } else {
            seq!["-S"@, "--noconfirm"@, "python-pipx"@]
        },
        InstallStep::InstallWithPipx => seq!["install"@, "--force"@, "subliminal>=2.4.0"@],
        InstallStep::InstallWithPip(_) => if platform is Windows {
            seq!["-m"@, "pip"@, "install"@, "--upgrade"@, "subliminal>=2.4.0"@]
        } else {
            seq!["-m"@, "pip"@, "install"@, "--user"@, "--upgrade"@, "subliminal>=2.4.0"@]
        },
        InstallStep::Finished => Seq::empty(),
    }
}

/// The name a step's failures are reported under.
pub open spec fn step_label(platform: Platform, step: InstallStep) -> Seq<char> {
    match step {
        InstallStep::InstallPipx(i) => pipx_attempt_program(i as int),
        InstallStep::InstallWithPip(i) => if platform is Windows {
            pip_program(platform, i as int)
        } else {
            pip_program(platform, i as int) + " pip"@
        },
        _ => "pipx"@,
    }
}

/// The message of a failed step; on macOS a pipx that could not be run reports the reason
/// alone.
pub open spec fn failure_message(platform: Platform, step: InstallStep, result: StepResult) -> Seq<char> {
    match result {
        StepResult::Exited { success: _, status, stderr } => step_label(platform, step)
            + " exited with "@ + status@ + ": "@ + trim(stderr@),
        StepResult::Error(e) => if platform is MacOs {
            e@
        } else {
            step_label(platform, step) + ": "@ + e@
        },
    }
}

/// Every runnable step ranks between the first and the last, so with each step ranking above
/// the one before it an installation runs at most ten commands.
pub proof fn lemma_install_steps_bounded(platform: Platform, step: InstallStep)
    requires
        valid_step(platform, step),
    ensures
        0 <= step_rank(step) <= 10,
        step is Finished <==> step_rank(step) == 10,
{
}

/// An installation in progress.
pub struct SubliminalInstaller {
    /// The operating system it runs on.
    pub platform: Platform,
    /// The next step to run.
    pub step: InstallStep,
    /// The message of the latest failed attempt.
    pub last_error: Option<String>,
    /// How the installation ended, once it has.
    pub outcome: Option<Result<(), String>>,
}

impl SubliminalInstaller {
    /// The installation's invariant: a runnable step, and an outcome exactly when finished.
    pub open spec fn wf(&self) -> bool {
        &&& valid_step(self.platform, self.step)
        &&& (self.step is Finished) == (self.outcome is Some)
    }

    /// An installation on `platform`, at its first step.
    pub fn new(platform: Platform) -> (r: Self)
        ensures
            r.wf(),
            r.platform == platform,
            r.step == first_step(platform),
            r.last_error is None,
    {
        let step = match platform {
            Platform::Linux => InstallStep::CheckPipx,
            Platform::MacOs => InstallStep::InstallWithPipx,
            Platform::Windows => InstallStep::InstallWithPip(0),
        };
        SubliminalInstaller { platform, step, last_error: None, outcome: None }
    }

    /// The program and arguments of the next step, and whether it is a quick probe rather than
    /// an installation; `None` once the installation has ended.
    pub fn command(&self) -> (r: Option<(String, Vec<String>, bool)>)
        requires
            self.wf(),
        ensures
            r is None == (self.step is Finished),
            match r {
                Some(c) => c.0@ == step_program(self.platform, self.step) && c.2 == (
                self.step is CheckPipx) && texts(c.1@) == step_args(self.platform, self.step),
                None => true,
            },
    {
        let windows = match self.platform {
            Platform::Windows => true,
            _ => false,
        };
        let (program, args, probe): (&str, Vec<&str>, bool) = match self.step {
            InstallStep::CheckPipx => ("pipx", vec!["--version"], true),
            InstallStep::InstallPipx(i) => {
                if i == 0 {
                    ("python3", vec!["-m", "pip", "install", "--user", "pipx"], false)
                } else if i == 1 {
                    ("python", vec!["-m", "pip", "install", "--user", "pipx"], false)
                } else if i == 2 {
                    ("apt", vec!["install", "-y", "pipx"], false)
                } else if i == 3 {
                    ("dnf", vec!["install", "-y", "python3-pipx"], false)
                } else {
                    ("pacman", vec!["-S", "--noconfirm", "python-pipx"], false)
                }
            },
            InstallStep::InstallWithPipx => ("pipx", vec!["install", "--force", "subliminal>=2.4.0"], false),
            InstallStep::InstallWithPip(i) => {
                if windows {
                    (
                        if i == 0 {
                            "python"
                        } else if i == 1 {
                            "py"
                        } else {
                            "python3"
                        },
                        vec!["-m", "pip", "install", "--upgrade", "subliminal>=2.4.0"],
                        false,
                    )
                } else {
                    (
                        if i == 0 {
                            "python3"
                        } else {
                            "python"
                        },
                        vec!["-m", "pip", "install", "--user", "--upgrade", "subliminal>=2.4.0"],
                        false,
                    )
                }
            },
            InstallStep::Finished => {
                return None;
            },
        };
        let mut owned: Vec<String> = Vec::new();
        let mut k: usize = 0;
        while k < args.len()
            invariant
                0 <= k <= args@.len(),
                owned@.len() == k,
                forall|j: int| 0 <= j < k ==> #[trigger] owned@[j]@ == args@[j]@,
            decreases args.len() - k,
        {
            owned.push(args[k].to_owned());
            k = k + 1;
        }
        assert(texts(owned@) =~= args@.map_values(|a: &str| a@));
        Some((program.to_owned(), owned, probe))
    }

    /// The name the current step's failures are reported under.
    fn label(&self) -> (r: String)
        ensures
            r@ == step_label(self.platform, self.step),
    {
        let windows = match self.platform {
            Platform::Windows => true,
            _ => false,
        };
        match self.step {
            InstallStep::InstallPipx(i) => {
                if i == 0 {
                    "python3".to_owned()
                } else if i == 1 {
                    "python".to_owned()
                } else if i == 2 {
                    "apt".to_owned()
                } else if i == 3 {
                    "dnf".to_owned()
                } else {
                    "pacman".to_owned()
                }
            },
            InstallStep::InstallWithPip(i) => {
                if windows {
                    if i == 0 {
                        "python".to_owned()
                    } else if i == 1 {
                        "py".to_owned()
                    } else {
                        "python3".to_owned()
                    }
                } else {
                    let mut l = if i == 0 {
                        "python3".to_owned()
                    } else {
                        "python".to_owned()
                    };
                    push_str(&mut l, " pip");
                    l
                }
            },
            _ => "pipx".to_owned(),
        }
    }

    /// Takes the result of the step that was run: a successful Subliminal installation ends
    /// the installation; a failure is remembered and the next attempt follows; when the last
    /// attempt has failed, the installation ends with the latest failure.
    pub fn advance(&mut self, result: StepResult)
        requires
            old(self).wf(),
            !(old(self).step is Finished),
        ensures
            final(self).wf(),
            final(self).platform == old(self).platform,
            step_rank(final(self).step) > step_rank(old(self).step),
            final(self).step == next_step_spec(
                old(self).platform,
                old(self).step,
                result is Exited,
                match result {
                    StepResult::Exited { success, .. } => success,
                    StepResult::Error(_) => false,
                },
            ),
            ({
                let ok = match result {
                    StepResult::Exited { success, .. } => success,
                    StepResult::Error(_) => false,
                };
                &&& (old(self).step is CheckPipx || ok) ==> final(self).last_error == old(self).last_error
                &&& !(old(self).step is CheckPipx || ok) ==> (final(self).last_error matches Some(e)
                    && e@ == failure_message(old(self).platform, old(self).step, result))
                &&& (final(self).outcome matches Some(Ok(_))) <==> ((old(self).step is InstallWithPipx
                    || old(self).step is InstallWithPip) && ok)
                &&& (final(self).outcome matches Some(Err(e)) ==> e@ == failure_message(
                    old(self).platform,
                    old(self).step,
                    result,
                ))
            }),
    {
        let ghost old_step = self.step;
        let ok = match &result {
            StepResult::Exited { success, .. } => *success,
            StepResult::Error(_) => false,
        };
        let ran = match &result {
            StepResult::Exited { .. } => true,
            StepResult::Error(_) => false,
        };
        if let InstallStep::CheckPipx = self.step {
            self.step = if ran && !ok {
                InstallStep::InstallPipx(0)
            } else {
                InstallStep::InstallWithPipx
            };
            return;
        }
        if ok {
            match self.step {
                InstallStep::InstallPipx(_) => {
                    self.step = InstallStep::InstallWithPipx;
                },
                _ => {
                    self.step = InstallStep::Finished;
                    self.outcome = Some(Ok(()));
                },
            }
            return;
        }
        let macos = match self.platform {
            Platform::MacOs => true,
            _ => false,
        };
        let pips: usize = match self.platform {
            Platform::Linux => 2,
            Platform::MacOs => 0,
            Platform::Windows => 3,
        };
        let mut message = self.label();
        match &result {
            StepResult::Exited { success: _, status, stderr } => {
                push_str(&mut message, " exited with ");
                push_str(&mut message, status.as_str());
                push_str(&mut message, ": ");
                let sc = chars_of(stderr.as_str());
                let st = trim_chars(&sc);
                let trimmed = string_of(&st);
                push_str(&mut message, trimmed.as_str());
            },
            StepResult::Error(e) => {
                if macos {
                    message = e.clone();
                } else {
                    push_str(&mut message, ": ");
                    push_str(&mut message, e.as_str());
                }
            },
        }
        assert(message@ == failure_message(self.platform, old_step, result));
        match self.step {
            InstallStep::InstallPipx(i) => {
                self.step = if i + 1 >= 5 {
                    InstallStep::InstallWithPipx
                } else {
                    InstallStep::InstallPipx(i + 1)
                };
                self.last_error = Some(message);
            },
            InstallStep::InstallWithPipx => {
                if pips == 0 {
                    self.step = InstallStep::Finished;
                    self.outcome = Some(Err(message.clone()));
                } else {
                    self.step = InstallStep::InstallWithPip(0);
                }
                self.last_error = Some(message);
            },
            InstallStep::InstallWithPip(i) => {
                if i + 1 >= pips {
                    self.step = InstallStep::Finished;
                    self.outcome = Some(Err(message.clone()));
                } else {
                    self.step = InstallStep::InstallWithPip(i + 1);
                }
                self.last_error = Some(message);
            },
            _ => {},
        }
    }
}

} // verus!
