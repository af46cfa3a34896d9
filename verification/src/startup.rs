//! The state of the external dependencies (Python, pipx, Subliminal, FFmpeg) and how it moves
//! on as checks and installations report back.
//!
//! The checks and installations themselves run elsewhere; each of their reports is an event
//! that one method here turns into the next state and the action to take.

use vstd::prelude::*;
use crate::data::{InitCheckResult, StartupPhase, SubliminalCommand, SubliminalInstallResult};
use crate::text::{opt_text, push_str};

verus! {

/// How far startup has come: checking, then possibly installing, then ready.
pub open spec fn phase_rank(p: StartupPhase) -> int {
    match p {
        StartupPhase::Checking => 0,
        StartupPhase::Installing => 1,
        StartupPhase::Ready => 2,
    }
}

/// What the application does after an event.
pub struct StartupAction {
    /// A new status message, if any.
    pub status: Option<String>,
    /// Start installing Subliminal with the state's Python command.
    pub install_subliminal: bool,
    /// Start the periodic background check of the dependencies.
    pub start_background_check: bool,
    /// Stop the periodic background check: everything is installed.
    pub stop_background_check: bool,
}

/// Nothing to do.
pub open spec fn is_idle(a: StartupAction) -> bool {
    a.status is None && !a.install_subliminal && !a.start_background_check && !a.stop_background_check
}

/// What is known of the dependencies.
pub struct DependencyStatus {
    pub startup_phase: StartupPhase,
    pub python_command: Option<String>,
    pub python_version: Option<String>,
    pub python_installed: bool,
    pub pipx_installed: bool,
    pub pipx_version: Option<String>,
    pub subliminal_installed: bool,
    pub subliminal_version: Option<String>,
    pub subliminal_command: Option<SubliminalCommand>,
    pub ffmpeg_installed: bool,
    pub homebrew_installed: bool,
    pub installing_python: bool,
    pub installing_subliminal: bool,
}

/// Everything needed to download subtitles is installed.
pub open spec fn ready_spec(s: DependencyStatus) -> bool {
    s.python_installed && s.subliminal_installed && s.ffmpeg_installed
}

fn idle() -> (r: StartupAction)
    ensures
        is_idle(r),
{
    StartupAction {
        status: None,
        install_subliminal: false,
        start_background_check: false,
        stop_background_check: false,
    }
}

impl DependencyStatus {
    /// Nothing known yet: startup is checking.
    pub fn new() -> (r: Self)
        ensures
            r.startup_phase is Checking,
            !r.python_installed && !r.pipx_installed && !r.subliminal_installed,
            !r.ffmpeg_installed && !r.homebrew_installed,
            !r.installing_python && !r.installing_subliminal,
            r.python_command is None && r.python_version is None && r.pipx_version is None,
            r.subliminal_version is None && r.subliminal_command is None,
    {
        DependencyStatus {
            startup_phase: StartupPhase::Checking,
            python_command: None,
            python_version: None,
            python_installed: false,
            pipx_installed: false,
            pipx_version: None,
            subliminal_installed: false,
            subliminal_version: None,
            subliminal_command: None,
            ffmpeg_installed: false,
            homebrew_installed: false,
            installing_python: false,
            installing_subliminal: false,
        }
    }

    /// Python, Subliminal and FFmpeg are all installed.
    pub fn dependencies_ready(&self) -> (r: bool)
        ensures
            r == ready_spec(*self),
    {
        self.python_installed && self.subliminal_installed && self.ffmpeg_installed
    }

    /// The result of the initial dependency check. While startup is checking it takes every
    /// finding; when Python and pipx are there but Subliminal is not, startup goes on to
    /// install Subliminal, otherwise it is over and the background check starts. In any other
    /// phase the result is ignored.
    pub fn apply_init_check(&mut self, result: InitCheckResult) -> (r: StartupAction)
        ensures
            !(old(self).startup_phase is Checking) ==> *final(self) == *old(self) && is_idle(r),
            old(self).startup_phase is Checking ==> {
                &&& final(self).python_command == result.python_command
                &&& final(self).python_version == result.python_version
                &&& final(self).python_installed == result.python_version is Some
                &&& final(self).pipx_installed == result.pipx_installed
                &&& final(self).pipx_version == result.pipx_version
                &&& final(self).subliminal_installed == result.subliminal_installed
                &&& final(self).subliminal_version == result.subliminal_version
                &&& final(self).subliminal_command == result.subliminal_command
                &&& final(self).ffmpeg_installed == result.ffmpeg_installed
                &&& final(self).homebrew_installed == result.homebrew_installed
                &&& final(self).installing_python == old(self).installing_python
                &&& if result.python_version is Some && result.pipx_installed
                    && !result.subliminal_installed {
                    &&& final(self).startup_phase is Installing
                    &&& final(self).installing_subliminal
                    &&& opt_text(r.status) == Some("Python and pipx detected. Installing Subliminal..."@)
                    &&& r.install_subliminal && !r.start_background_check && !r.stop_background_check
                } else {
                    &&& final(self).startup_phase is Ready
                    &&& final(self).installing_subliminal == old(self).installing_subliminal
                    &&& opt_text(r.status) == Some("Scanning will start automatically when a folder is selected"@)
                    &&& !r.install_subliminal && r.start_background_check && !r.stop_background_check
                }
            },
            phase_rank(old(self).startup_phase) <= phase_rank(final(self).startup_phase),
            !(final(self).startup_phase is Checking) || !(old(self).startup_phase is Checking),
    {
        match self.startup_phase {
            StartupPhase::Checking => {},
            _ => {
                return idle();
            },
        }
        self.python_command = result.python_command;
        self.python_installed = result.python_version.is_some();
        self.python_version = result.python_version;
        self.pipx_installed = result.pipx_installed;
        self.pipx_version = result.pipx_version;
        self.subliminal_installed = result.subliminal_installed;
        self.subliminal_version = result.subliminal_version;
        self.subliminal_command = result.subliminal_command;
        self.ffmpeg_installed = result.ffmpeg_installed;
        self.homebrew_installed = result.homebrew_installed;
        if self.python_installed && self.pipx_installed && !self.subliminal_installed {
            self.startup_phase = StartupPhase::Installing;
            self.installing_subliminal = true;
            StartupAction {
                status: Some("Python and pipx detected. Installing Subliminal...".to_owned()),
                install_subliminal: true,
                start_background_check: false,
                stop_background_check: false,
            }
        } else {
            self.startup_phase = StartupPhase::Ready;
            StartupAction {
                status: Some("Scanning will start automatically when a folder is selected".to_owned()),
                install_subliminal: false,
                start_background_check: true,
                stop_background_check: false,
            }
        }
    }

    /// A report of the background check, which runs once startup is over: whether pipx is
    /// available, what probing Subliminal found, and whether FFmpeg and Homebrew are there.
    /// Subliminal's state is only taken while Python and pipx are installed. When pipx has just
    /// appeared and Subliminal is missing, its installation starts; when this report completes
    /// the dependencies, the status says so; once they are complete the check stops.
    pub fn apply_background_status(
        &mut self,
        pipx_available: bool,
        subliminal: SubliminalInstallResult,
        ffmpeg_installed: bool,
        homebrew_installed: bool,
    ) -> (r: StartupAction)
        ensures
            !(old(self).startup_phase is Ready) ==> *final(self) == *old(self) && is_idle(r),
            old(self).startup_phase is Ready ==> {
                let sub = if old(self).python_installed && pipx_available {
                    subliminal.installed
                } else {
                    old(self).subliminal_installed
                };
                let install = !old(self).pipx_installed && pipx_available && !sub;
                let completes = (!old(self).subliminal_installed || !old(self).ffmpeg_installed)
                    && ready_spec(*final(self));
                &&& final(self).startup_phase == old(self).startup_phase
                &&& final(self).python_command == old(self).python_command
                &&& final(self).python_version == old(self).python_version
                &&& final(self).python_installed == old(self).python_installed
                &&& final(self).pipx_installed == pipx_available
                &&& final(self).pipx_version == old(self).pipx_version
                &&& final(self).subliminal_installed == sub
                &&& final(self).subliminal_version == subliminal.version
                &&& final(self).subliminal_command == subliminal.command
                &&& final(self).ffmpeg_installed == ffmpeg_installed
                &&& final(self).homebrew_installed == homebrew_installed
                &&& final(self).installing_python == old(self).installing_python
                &&& final(self).installing_subliminal == (old(self).installing_subliminal || install)
                &&& r.install_subliminal == install
                &&& opt_text(r.status) == (if completes {
                    Some("All dependencies installed. Ready to download subtitles."@)
                } else if install {
                    Some("pipx detected! Installing Subliminal..."@)
                } else {
                    None
                })
                &&& r.stop_background_check == ready_spec(*final(self))
                &&& !r.start_background_check
            },
            phase_rank(old(self).startup_phase) <= phase_rank(final(self).startup_phase),
    {
        if !self.startup_phase.is_terminal() {
            return idle();
        }
        let old_pipx = self.pipx_installed;
        let old_subliminal = self.subliminal_installed;
        let old_ffmpeg = self.ffmpeg_installed;
        self.subliminal_version = subliminal.version;
        self.subliminal_command = subliminal.command;
        self.ffmpeg_installed = ffmpeg_installed;
        self.homebrew_installed = homebrew_installed;
        self.pipx_installed = pipx_available;
        if self.python_installed && self.pipx_installed {
            self.subliminal_installed = subliminal.installed;
        }
        let mut status: Option<String> = None;
        let mut install = false;
        if !old_pipx && self.pipx_installed && !self.subliminal_installed {
            status = Some("pipx detected! Installing Subliminal...".to_owned());
            self.installing_subliminal = true;
            install = true;
        }
        let ready = self.dependencies_ready();
        if (!old_subliminal || !old_ffmpeg) && ready {
            status = Some("All dependencies installed. Ready to download subtitles.".to_owned());
        }
        StartupAction {
            status,
            install_subliminal: install,
            start_background_check: false,
            stop_background_check: ready,
        }
    }

    /// The outcome of a Python installation that was running: on success, the Python command
    /// and version found afterwards (`None` when none was found); on failure, the error. A
    /// successful installation goes on to install Subliminal. Without a running installation
    /// the outcome is ignored.
    pub fn apply_python_install(
        &mut self,
        outcome: Result<Option<(String, String)>, String>,
    ) -> (r: StartupAction)
        ensures
            !old(self).installing_python ==> *final(self) == *old(self) && is_idle(r),
            old(self).installing_python ==> {
                &&& !final(self).installing_python
                &&& final(self).startup_phase == old(self).startup_phase
                &&& final(self).pipx_installed == old(self).pipx_installed
                &&& final(self).pipx_version == old(self).pipx_version
                &&& final(self).subliminal_version == old(self).subliminal_version
                &&& final(self).subliminal_command == old(self).subliminal_command
                &&& final(self).ffmpeg_installed == old(self).ffmpeg_installed
                &&& final(self).homebrew_installed == old(self).homebrew_installed
                &&& !r.start_background_check && !r.stop_background_check
                &&& match outcome {
                    Ok(info) => {
                        &&& final(self).python_command == (match info {
                            Some(i) => Some(i.0),
                            None => None,
                        })
                        &&& final(self).python_version == (match info {
                            Some(i) => Some(i.1),
                            None => None,
                        })
                        &&& final(self).python_installed == info is Some
                        &&& !final(self).subliminal_installed
                        &&& final(self).installing_subliminal
                        &&& r.install_subliminal
                        &&& opt_text(r.status) == Some("Python installed successfully. Installing Subliminal..."@)
                    },
                    Err(e) => {
                        &&& final(self).python_command == old(self).python_command
                        &&& final(self).python_version == old(self).python_version
                        &&& final(self).python_installed == old(self).python_installed
                        &&& final(self).subliminal_installed == old(self).subliminal_installed
                        &&& final(self).installing_subliminal == old(self).installing_subliminal
                        &&& !r.install_subliminal
                        &&& opt_text(r.status) == Some("Python install failed: "@ + e@)
                    },
                }
            },
            phase_rank(old(self).startup_phase) <= phase_rank(final(self).startup_phase),
    {
        if !self.installing_python {
            return idle();
        }
        self.installing_python = false;
        match outcome {
            Ok(info) => {
                match info {
                    Some((command, version)) => {
                        self.python_command = Some(command);
                        self.python_version = Some(version);
                        self.python_installed = true;
                    },
                    None => {
                        self.python_command = None;
                        self.python_version = None;
                        self.python_installed = false;
                    },
                }
                self.subliminal_installed = false;
                self.installing_subliminal = true;
                StartupAction {
                    status: Some("Python installed successfully. Installing Subliminal...".to_owned()),
                    install_subliminal: true,
                    start_background_check: false,
                    stop_background_check: false,
                }
            },
            Err(e) => {
                let mut m = "Python install failed: ".to_owned();
                push_str(&mut m, e.as_str());
                StartupAction {
                    status: Some(m),
                    install_subliminal: false,
                    start_background_check: false,
                    stop_background_check: false,
                }
            },
        }
    }

    /// The outcome of a Subliminal installation that was running. A verified installation
    /// sets Subliminal's state; a failure leaves it. When the installation was part of
    /// startup, startup is then over and the background check starts. Without a running
    /// installation the outcome is ignored.
    pub fn apply_subliminal_install(
        &mut self,
        outcome: Result<SubliminalInstallResult, String>,
    ) -> (r: StartupAction)
        ensures
            !old(self).installing_subliminal ==> *final(self) == *old(self) && is_idle(r),
            old(self).installing_subliminal ==> {
                &&& !final(self).installing_subliminal
                &&& final(self).installing_python == old(self).installing_python
                &&& final(self).python_installed == old(self).python_installed
                &&& final(self).pipx_installed == old(self).pipx_installed
                &&& final(self).ffmpeg_installed == old(self).ffmpeg_installed
                &&& final(self).python_command == old(self).python_command
                &&& final(self).python_version == old(self).python_version
                &&& final(self).pipx_version == old(self).pipx_version
                &&& final(self).homebrew_installed == old(self).homebrew_installed
                &&& !r.install_subliminal && !r.stop_background_check
                &&& if old(self).startup_phase is Installing {
                    final(self).startup_phase is Ready && r.start_background_check
                } else {
                    final(self).startup_phase == old(self).startup_phase && !r.start_background_check
                }
                &&& match outcome {
                    Ok(res) => {
                        &&& final(self).subliminal_installed == res.installed
                        &&& final(self).subliminal_version == res.version
                        &&& final(self).subliminal_command == res.command
                        &&& opt_text(r.status) == Some("Subliminal installed."@)
                    },
                    Err(e) => {
                        &&& final(self).subliminal_installed == old(self).subliminal_installed
                        &&& final(self).subliminal_version == old(self).subliminal_version
                        &&& final(self).subliminal_command == old(self).subliminal_command
                        &&& opt_text(r.status) == Some("Subliminal install failed: "@ + e@)
                    },
                }
            },
            phase_rank(old(self).startup_phase) <= phase_rank(final(self).startup_phase),
    {
        if !self.installing_subliminal {
            return idle();
        }
        let initial = match self.startup_phase {
            StartupPhase::Installing => true,
            _ => false,
        };
        self.installing_subliminal = false;
        let status = match outcome {
            Ok(res) => {
                self.subliminal_installed = res.installed;
                self.subliminal_version = res.version;
                self.subliminal_command = res.command;
                "Subliminal installed.".to_owned()
            },
            Err(e) => {
                let mut m = "Subliminal install failed: ".to_owned();
                push_str(&mut m, e.as_str());
                m
            },
        };
        if initial {
            self.startup_phase = StartupPhase::Ready;
        }
        StartupAction {
            status: Some(status),
            install_subliminal: false,
            start_background_check: initial,
            stop_background_check: false,
        }
    }

    /// A request to install Subliminal: refused while an installation runs or without Python.
    pub fn request_subliminal_install(&mut self) -> (r: StartupAction)
        ensures
            (old(self).installing_subliminal || !old(self).python_installed) ==> *final(self) == *old(self)
                && is_idle(r),
            !(old(self).installing_subliminal || !old(self).python_installed) ==> {
                &&& final(self).installing_subliminal
                &&& final(self).startup_phase == old(self).startup_phase
                &&& final(self).python_installed == old(self).python_installed
                &&& final(self).subliminal_installed == old(self).subliminal_installed
                &&& final(self).python_command == old(self).python_command
                &&& final(self).python_version == old(self).python_version
                &&& final(self).pipx_installed == old(self).pipx_installed
                &&& final(self).pipx_version == old(self).pipx_version
                &&& final(self).subliminal_version == old(self).subliminal_version
                &&& final(self).subliminal_command == old(self).subliminal_command
                &&& final(self).ffmpeg_installed == old(self).ffmpeg_installed
                &&& final(self).homebrew_installed == old(self).homebrew_installed
                &&& final(self).installing_python == old(self).installing_python
                &&& r.install_subliminal && !r.start_background_check && !r.stop_background_check
                &&& opt_text(r.status) == Some("Installing Subliminal..."@)
            },
            phase_rank(old(self).startup_phase) <= phase_rank(final(self).startup_phase),
    {
        if self.installing_subliminal || !self.python_installed {
            return idle();
        }
        self.installing_subliminal = true;
        StartupAction {
            status: Some("Installing Subliminal...".to_owned()),
            install_subliminal: true,
            start_background_check: false,
            stop_background_check: false,
        }
    }
}

} // verus!
