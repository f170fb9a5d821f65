//! The daemon: its command line, and the steps in which the manager comes up.

use vstd::prelude::*;

use crate::text::{cat2, cat3, owned, texts, Text};

verus! {

/// The command line.
#[derive(Debug, Clone, PartialEq, Eq)]
pub struct Cli {
    /// The manager of the user, instead of that of the system.
    pub user: bool,
    pub cmd: Command,
}

#[derive(Debug, Clone, PartialEq, Eq)]
pub enum Command {
    /// Run the manager.
    Daemon {
        /// Load `.socket` units, but listen on nothing.
        no_socket_activation: bool,
    },
    /// Install, remove or run the service of the Windows service manager.
    Service { action: ServiceCommand },
    /// Show the version.
    Version,
}

#[derive(Debug, Clone, PartialEq, Eq)]
pub enum ServiceCommand {
    /// Enter the dispatcher of the service manager.
    Run { name: String },
    /// Register the service.
    Install {
        name: String,
        display_name: String,
        /// Start on demand instead of by itself.
        manual: bool,
    },
    /// Remove the registration.
    Uninstall { name: String },
}

/// What a command line asks for.
#[derive(Debug, Clone, PartialEq, Eq)]
pub enum Job {
    /// Run the manager.
    Manage { user: bool, socket_activation: bool },
    /// Do this with the service manager.
    Service(ServiceCommand),
    /// Print this line.
    Print(String),
}

/// What a command line asks for.
pub fn run(cli: Cli, version: &str) -> (r: Job)
    ensures
        match cli.cmd {
            Command::Daemon { no_socket_activation } => r == (Job::Manage {
                user: cli.user,
                socket_activation: !no_socket_activation,
            }),
            Command::Service { action } => r == Job::Service(action),
            Command::Version => r is Print && (r->Print_0)@ == "rustemd "@ + version@,
        },
{
    match cli.cmd {
        Command::Daemon { no_socket_activation } => Job::Manage {
            user: cli.user,
            socket_activation: !no_socket_activation,
        },
        Command::Service { action } => Job::Service(action),
        Command::Version => Job::Print(cat2("rustemd ", version)),
    }
}

/// The exit code of a command to the service manager, and what is printed of
/// its failure.
pub fn service_result(result: &Result<(), String>) -> (r: (i32, Option<String>))
    ensures
        match *result {
            Ok(_) => r.0 == 0 && r.1 is None,
            Err(e) => r.0 == 1 && r.1 is Some && (r.1->0)@ == "rustemd: "@ + e@,
        },
{
    match result {
        Ok(_) => (0, None),
        Err(e) => (1, Some(cat2("rustemd: ", e.as_str()))),
    }
}

/// The command line by which the service manager starts the service: the
/// executable's path is quoted.
pub fn service_image_path(path: &str) -> (r: String)
    ensures
        r@ == "\""@ + path@ + "\" service run"@,
{
    cat3("\"", path, "\" service run")
}

// ---- coming up ------------------------------------------------------------------

/// How the daemon was started.
#[derive(Debug, Clone, Copy, PartialEq, Eq, Structural)]
pub struct Setup {
    pub user: bool,
    /// The daemon is the first process of the machine.
    pub first_process: bool,
    /// The daemon can bring the machine up.
    pub boots: bool,
    /// The manager acts as the first process.
    pub as_pid1: bool,
}

/// The steps in which the manager comes up, in order.
#[derive(Debug, Clone, Copy, PartialEq, Eq, Structural)]
pub enum Phase {
    /// Mount the filesystems of the kernel, and do what comes before anything
    /// else.
    Boot,
    /// Read the manager's configuration.
    Configure,
    /// Make the manager.
    Create,
    /// Load the units.
    Load,
    /// Find the devices, and begin to watch them.
    Devices,
    /// Adopt orphaned processes.
    Subreaper,
    /// Bind the control socket.
    BindIpc,
    /// Bind the socket that services notify.
    BindNotify,
    /// Set the signals up.
    Signals,
    /// Bring the bridge to D-Bus up.
    Dbus,
    /// Start the default target.
    StartDefault,
    /// Say that the manager is up.
    Ready,
    /// Serve until the shutdown.
    Serve,
    /// Switch the machine off.
    PowerOff,
    /// Exit with this code.
    Exit(i32),
}

/// The first step.
pub open spec fn first_phase(s: Setup) -> Phase {
    if s.boots && s.first_process {
        Phase::Boot
    } else {
        Phase::Configure
    }
}

/// The step after one that went well.
pub open spec fn next_phase(s: Setup, p: Phase) -> Phase {
    match p {
        Phase::Boot => Phase::Configure,
        Phase::Configure => Phase::Create,
        Phase::Create => Phase::Load,
        Phase::Load => Phase::Devices,
        Phase::Devices => if !s.as_pid1 && !s.user {
            Phase::Subreaper
        } else {
            Phase::BindIpc
        },
        Phase::Subreaper => Phase::BindIpc,
        Phase::BindIpc => Phase::BindNotify,
        Phase::BindNotify => Phase::Signals,
        Phase::Signals => Phase::Dbus,
        Phase::Dbus => Phase::StartDefault,
        Phase::StartDefault => Phase::Ready,
        Phase::Ready => Phase::Serve,
        Phase::Serve => if s.boots && s.first_process {
            Phase::PowerOff
        } else {
            Phase::Exit(0)
        },
        Phase::PowerOff => Phase::Exit(0),
        Phase::Exit(c) => Phase::Exit(c),
    }
}

/// Can the manager not come up where the step fails?
pub open spec fn is_essential(p: Phase) -> bool {
    p == Phase::Configure || p == Phase::Create || p == Phase::BindIpc || p == Phase::BindNotify
}

/// What is printed of a step's failure; of some nothing is.
pub open spec fn phase_failure(p: Phase, e: Text) -> Option<Text> {
    match p {
        Phase::Boot => Some("rustemd: mount API filesystems failed: "@ + e),
        Phase::Configure => Some(e),
        Phase::Create => Some(e),
        Phase::BindIpc => Some("Failed to bind control socket: "@ + e),
        Phase::BindNotify => Some("Failed to bind notify socket: "@ + e),
        Phase::Dbus => Some("D-Bus: "@ + e),
        _ => None,
    }
}

/// What is printed when a step went well; of most nothing is.
pub open spec fn phase_news(s: Setup, p: Phase, version: Text) -> Option<Text> {
    match p {
        Phase::Ready => Some("rustemd "@ + version + " manager started"@),
        Phase::Serve => if s.boots && s.first_process {
            Some("rustemd: shutdown complete, powering off"@)
        } else {
            None
        },
        _ => None,
    }
}

/// What a step came to, as specifications see it.
pub open spec fn phase_outcome(r: Result<(), String>) -> Result<(), Text> {
    match r {
        Ok(_) => Ok(()),
        Err(e) => Err(e@),
    }
}

/// The step after this one, and what is printed, from what it came to.
pub open spec fn advanced(s: Setup, p: Phase, r: Result<(), Text>, version: Text) -> (
    Phase,
    Option<Text>,
) {
    match r {
        Ok(_) => (next_phase(s, p), phase_news(s, p, version)),
        Err(e) => (
            if is_essential(p) {
                Phase::Exit(1)
            } else {
                next_phase(s, p)
            },
            match phase_failure(p, e) {
                Some(m) => Some(m),
                None => phase_news(s, p, version),
            },
        ),
    }
}

impl Setup {
    /// The first step.
    pub fn first(&self) -> (r: Phase)
        ensures
            r == first_phase(*self),
    {
        if self.boots && self.first_process {
            Phase::Boot
        } else {
            Phase::Configure
        }
    }

    fn following(&self, p: Phase) -> (r: Phase)
        ensures
            r == next_phase(*self, p),
    {
        match p {
            Phase::Boot => Phase::Configure,
            Phase::Configure => Phase::Create,
            Phase::Create => Phase::Load,
            Phase::Load => Phase::Devices,
            Phase::Devices => if !self.as_pid1 && !self.user {
                Phase::Subreaper
            } else {
                Phase::BindIpc
            },
            Phase::Subreaper => Phase::BindIpc,
            Phase::BindIpc => Phase::BindNotify,
            Phase::BindNotify => Phase::Signals,
            Phase::Signals => Phase::Dbus,
            Phase::Dbus => Phase::StartDefault,
            Phase::StartDefault => Phase::Ready,
            Phase::Ready => Phase::Serve,
            Phase::Serve => if self.boots && self.first_process {
                Phase::PowerOff
            } else {
                Phase::Exit(0)
            },
            Phase::PowerOff => Phase::Exit(0),
            Phase::Exit(c) => Phase::Exit(c),
        }
    }

    fn news(&self, p: Phase, version: &str) -> (r: Option<String>)
        ensures
            crate::text::opt_text(r) == phase_news(*self, p, version@),
    {
        match p {
            Phase::Ready => Some(cat3("rustemd ", version, " manager started")),
            Phase::Serve => if self.boots && self.first_process {
                Some(owned("rustemd: shutdown complete, powering off"))
            } else {
                None
            },
            _ => None,
        }
    }

    /// The step after this one, and what is printed, from what it came to.
    pub fn run_daemon(&self, p: Phase, outcome: &Result<(), String>, version: &str) -> (r: (
        Phase,
        Option<String>,
    ))
        ensures
            (r.0, crate::text::opt_text(r.1)) == advanced(
                *self,
                p,
                phase_outcome(*outcome),
                version@,
            ),
    {
        match outcome {
            Ok(_) => (self.following(p), self.news(p, version)),
            Err(e) => {
                let message = match p {
                    Phase::Boot => Some(
                        cat2("rustemd: mount API filesystems failed: ", e.as_str()),
                    ),
                    Phase::Configure => Some(e.clone()),
                    Phase::Create => Some(e.clone()),
                    Phase::BindIpc => Some(cat2("Failed to bind control socket: ", e.as_str())),
                    Phase::BindNotify => Some(cat2("Failed to bind notify socket: ", e.as_str())),
                    Phase::Dbus => Some(cat2("D-Bus: ", e.as_str())),
                    _ => self.news(p, version),
                };
                let next = match p {
                    Phase::Configure => Phase::Exit(1),
                    Phase::Create => Phase::Exit(1),
                    Phase::BindIpc => Phase::Exit(1),
                    Phase::BindNotify => Phase::Exit(1),
                    _ => self.following(p),
                };
                (next, message)
            },
        }
    }
}

/// What is printed of the errors of loading the units.
pub fn load_warnings(errors: &Vec<String>) -> (r: Vec<String>)
    ensures
        texts(r@) == Seq::new(texts(errors@).len(), |i: int| "[load] "@ + texts(errors@)[i]),
{
    let mut out: Vec<String> = Vec::new();
    let mut i: usize = 0;
    while i < errors.len()
        invariant
            i <= errors.len(),
            out.len() == i,
            forall|j: int| 0 <= j < i ==> (#[trigger] out@[j])@ == "[load] "@ + errors@[j]@,
        decreases errors.len() - i,
    {
        out.push(cat2("[load] ", errors[i].as_str()));
        i = i + 1;
    }
    assert(texts(out@) =~= Seq::new(
        texts(errors@).len(),
        |i: int| "[load] "@ + texts(errors@)[i],
    ));
    out
}

/// How far the manager has come up.
pub open spec fn rank(p: Phase) -> nat {
    match p {
        Phase::Boot => 0,
        Phase::Configure => 1,
        Phase::Create => 2,
        Phase::Load => 3,
        Phase::Devices => 4,
        Phase::Subreaper => 5,
        Phase::BindIpc => 6,
        Phase::BindNotify => 7,
        Phase::Signals => 8,
        Phase::Dbus => 9,
        Phase::StartDefault => 10,
        Phase::Ready => 11,
        Phase::Serve => 12,
        Phase::PowerOff => 13,
        Phase::Exit(_) => 14,
    }
}

/// No step is taken twice or out of order, whatever the steps come to: the
/// units are loaded and both sockets bound before the default target starts,
/// and the manager serves only after that. It ends with the code 1 just where a
/// step fails that it cannot do without.
pub proof fn steps_go_forward(s: Setup, p: Phase, r: Result<(), Text>, version: Text)
    requires
        !(p is Exit),
    ensures
        rank(advanced(s, p, r, version).0) > rank(p),
        advanced(s, p, r, version).0 == Phase::Exit(1) <==> r is Err && is_essential(p),
        rank(p) < rank(Phase::Load) ==> rank(advanced(s, p, r, version).0) <= rank(Phase::Load)
            || advanced(s, p, r, version).0 == Phase::Exit(1),
        rank(p) < rank(Phase::BindIpc) ==> rank(advanced(s, p, r, version).0) <= rank(
            Phase::BindIpc,
        ) || advanced(s, p, r, version).0 == Phase::Exit(1),
        rank(p) < rank(Phase::StartDefault) ==> rank(advanced(s, p, r, version).0) <= rank(
            Phase::StartDefault,
        ) || advanced(s, p, r, version).0 == Phase::Exit(1),
{
}

/// Each step is followed by the next one in this order. Orphans are adopted only by
/// the manager of the system that is not the first process, and only the first
/// process that brought the machine up switches it off.
pub proof fn steps_follow_in_this_order(s: Setup)
    ensures
        first_phase(s) == Phase::Boot <==> s.boots && s.first_process,
        first_phase(s) == Phase::Configure <==> !s.boots || !s.first_process,
        next_phase(s, Phase::Boot) == Phase::Configure,
        next_phase(s, Phase::Configure) == Phase::Create,
        next_phase(s, Phase::Create) == Phase::Load,
        next_phase(s, Phase::Load) == Phase::Devices,
        next_phase(s, Phase::Subreaper) == Phase::BindIpc,
        next_phase(s, Phase::BindIpc) == Phase::BindNotify,
        next_phase(s, Phase::BindNotify) == Phase::Signals,
        next_phase(s, Phase::Signals) == Phase::Dbus,
        next_phase(s, Phase::Dbus) == Phase::StartDefault,
        next_phase(s, Phase::StartDefault) == Phase::Ready,
        next_phase(s, Phase::Ready) == Phase::Serve,
        next_phase(s, Phase::Devices) == Phase::Subreaper <==> !s.as_pid1 && !s.user,
        next_phase(s, Phase::Devices) == Phase::BindIpc <==> s.as_pid1 || s.user,
        next_phase(s, Phase::Serve) == Phase::PowerOff <==> s.boots && s.first_process,
        next_phase(s, Phase::Serve) == Phase::Exit(0) <==> !s.boots || !s.first_process,
        next_phase(s, Phase::PowerOff) == Phase::Exit(0),
{
}

/// A step that fails ends the manager with the code 1 where it is essential; else the
/// next one follows as if it had gone well.
pub proof fn only_essential_failures_end_the_manager(
    s: Setup,
    p: Phase,
    e: Text,
    version: Text,
)
    ensures
        advanced(s, p, Err(e), version).0 == if p == Phase::Configure || p == Phase::Create || p
            == Phase::BindIpc || p == Phase::BindNotify {
            Phase::Exit(1)
        } else {
            advanced(s, p, Ok(()), version).0
        },
        advanced(s, p, Ok(()), version).0 == next_phase(s, p),
        advanced(s, Phase::BindIpc, Err(e), version).1 == Some(
            "Failed to bind control socket: "@ + e,
        ),
        advanced(s, Phase::BindNotify, Err(e), version).1 == Some(
            "Failed to bind notify socket: "@ + e,
        ),
        advanced(s, Phase::Configure, Err(e), version).1 == Some(e),
        advanced(s, Phase::Create, Err(e), version).1 == Some(e),
        advanced(s, Phase::Dbus, Err(e), version).1 == Some("D-Bus: "@ + e),
        advanced(s, Phase::Boot, Err(e), version).1 == Some(
            "rustemd: mount API filesystems failed: "@ + e,
        ),
        advanced(s, Phase::Ready, Ok(()), version).1 == Some(
            "rustemd "@ + version + " manager started"@,
        ),
        advanced(s, Phase::Load, Err(e), version).1 is None,
{
}

/// The end of the machine is said.
pub proof fn the_end_is_said(s: Setup, version: Text)
    ensures
        s.boots && s.first_process ==> advanced(s, Phase::Serve, Ok(()), version).1 == Some(
            "rustemd: shutdown complete, powering off"@,
        ),
        !(s.boots && s.first_process) ==> advanced(s, Phase::Serve, Ok(()), version).1 is None,
{
}

} // verus!
