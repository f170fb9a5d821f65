//! The command line of the control program: what each command asks of the
//! manager, and what is done with the reply.

use vstd::prelude::*;

use crate::client::{
    request_of, requests_arrive, simple_json, units_json, wish_json, Ask, Client, Wish,
};
use crate::control::{all_normalized, normalize};
use crate::ipc::{asked, Asked, UnitsOp};
use crate::json::{json_of, Json};
use crate::names::normalized;
use crate::platform::signal::{is_signal, signal_name, Signal, SIGTERM};
use crate::text::{cat2, cat3, opt_text, texts, Text};
use crate::unit::values::{shown_signal_reads_back, sig_from_name, signal_of};

pub mod laws;
pub mod show;

verus! {

/// The command line.
#[derive(Debug, Clone)]
pub struct Cli {
    /// The manager of the user, instead of that of the system.
    pub user: bool,
    /// Do not pipe the output through a pager.
    pub no_pager: bool,
    pub cmd: Command,
}

#[derive(Debug, Clone)]
pub enum Command {
    /// Start units.
    Start { units: Vec<String> },
    /// Stop units.
    Stop { units: Vec<String> },
    /// Restart units.
    Restart { units: Vec<String> },
    /// Run the reload command of units.
    Reload { units: Vec<String> },
    /// Restart units; those that are not active are started.
    RestartOrStart { units: Vec<String> },
    /// Send a signal to a unit's processes.
    Kill { unit: String, signal: Option<String> },
    /// Show the status of units, or of all.
    Status { units: Vec<String>, full: bool },
    /// Are the units active?
    IsActive { units: Vec<String> },
    /// Have the units failed?
    IsFailed { units: Vec<String> },
    /// Are the units enabled?
    IsEnabled { units: Vec<String> },
    /// Enable units, and start them where `now` is set.
    Enable { units: Vec<String>, now: bool },
    /// Disable units, and stop them where `now` is set.
    Disable { units: Vec<String>, now: bool },
    /// Load the units again.
    DaemonReload,
    /// List units and their states.
    ListUnits {
        type_: Option<Vec<String>>,
        state: Option<String>,
        no_legend: bool,
        plain: bool,
    },
    /// List unit files and their enable states.
    ListUnitFiles { no_legend: bool },
    /// List timers.
    ListTimers { no_legend: bool, all: bool },
    /// Show unit files.
    Cat { units: Vec<String> },
    /// Show properties of units.
    Show { units: Vec<String>, property: Vec<String>, value: bool },
    /// Show the default target.
    GetDefault,
    /// Set the default target.
    SetDefault { target: String },
    /// Start a target, and stop what it does not need.
    Isolate { target: String },
    /// Is the manager running without failed units?
    IsSystemRunning,
    /// Stop all units, and exit.
    Poweroff,
    /// Show the version.
    Version,
    /// Generate shell completions.
    Completions { shell: Shell },
}

#[derive(Debug, Clone, Copy, PartialEq, Eq, Structural)]
pub enum Shell {
    Bash,
    Fish,
    Zsh,
    PowerShell,
    Nushell,
}

/// What is done with a reply.
#[derive(Debug, Clone)]
pub enum Reply {
    /// Nothing: it only says that the operation was done.
    Quiet,
    IsActive,
    IsFailed,
    Status,
    ListUnits { legend: bool },
    ListUnitFiles { legend: bool },
    ListTimers { legend: bool },
    Cat,
    Show { property: Vec<String>, value: bool },
    GetDefault,
    IsSystemRunning,
}

/// What is done with a reply, as specifications see it.
pub ghost enum Display {
    Quiet,
    IsActive,
    IsFailed,
    Status,
    ListUnits(bool),
    ListUnitFiles(bool),
    ListTimers(bool),
    Cat,
    Show(Seq<Text>, bool),
    GetDefault,
    IsSystemRunning,
}

impl View for Reply {
    type V = Display;

    open spec fn view(&self) -> Display {
        match self {
            Reply::Quiet => Display::Quiet,
            Reply::IsActive => Display::IsActive,
            Reply::IsFailed => Display::IsFailed,
            Reply::Status => Display::Status,
            Reply::ListUnits { legend } => Display::ListUnits(*legend),
            Reply::ListUnitFiles { legend } => Display::ListUnitFiles(*legend),
            Reply::ListTimers { legend } => Display::ListTimers(*legend),
            Reply::Cat => Display::Cat,
            Reply::Show { property, value } => Display::Show(texts(property@), *value),
            Reply::GetDefault => Display::GetDefault,
            Reply::IsSystemRunning => Display::IsSystemRunning,
        }
    }
}

/// What follows the links of units having been made or removed.
pub enum After {
    Nothing,
    /// Send this; its failure is the command's.
    Send(serde_json::Value),
    /// Send this, and let it fail.
    Try(serde_json::Value),
}

/// What follows, as specifications see it.
pub ghost enum Sequel {
    Nothing,
    Send(Json),
    Try(Json),
}

impl View for After {
    type V = Sequel;

    open spec fn view(&self) -> Sequel {
        match self {
            After::Nothing => Sequel::Nothing,
            After::Send(v) => Sequel::Send(json_of(*v)),
            After::Try(v) => Sequel::Try(json_of(*v)),
        }
    }
}

/// What a command does.
pub enum Plan {
    /// Send a request to the manager.
    Send(serde_json::Value, Reply),
    /// Look up whether the units are enabled.
    IsEnabled(Vec<String>),
    Enable(Vec<String>, After),
    Disable(Vec<String>, After),
    Print(String),
    Completions(Shell),
}

/// What a command does, as specifications see it.
pub ghost enum Course {
    Send(Json, Display),
    IsEnabled(Seq<Text>),
    Enable(Seq<Text>, Sequel),
    Disable(Seq<Text>, Sequel),
    Print(Text),
    Completions(Shell),
}

impl View for Plan {
    type V = Course;

    open spec fn view(&self) -> Course {
        match self {
            Plan::Send(v, d) => Course::Send(json_of(*v), d@),
            Plan::IsEnabled(u) => Course::IsEnabled(texts(u@)),
            Plan::Enable(u, a) => Course::Enable(texts(u@), a@),
            Plan::Disable(u, a) => Course::Disable(texts(u@), a@),
            Plan::Print(s) => Course::Print(s@),
            Plan::Completions(s) => Course::Completions(*s),
        }
    }
}

/// The request of an operation on units.
pub open spec fn units_wish(op: UnitsOp, units: Seq<String>) -> Json {
    wish_json(Wish::Units(op, texts(units)))
}

/// The types that `list-units` is limited to.
pub open spec fn type_list(t: Option<Vec<String>>) -> Seq<Text> {
    match t {
        Some(v) => texts(v@),
        None => seq![],
    }
}

/// The signal of `kill`: `SIGTERM` where none is named.
pub open spec fn kill_signal_of(s: Option<Text>) -> Option<int> {
    match s {
        Some(t) => signal_of(t),
        None => Some(SIGTERM as int),
    }
}

/// What a command does, or why it is refused.
pub open spec fn course_of(c: Command, version: Text) -> Result<Course, Text> {
    match c {
        Command::Start { units } => Ok(
            Course::Send(units_wish(UnitsOp::Start, units@), Display::Quiet),
        ),
        Command::Stop { units } => Ok(
            Course::Send(units_wish(UnitsOp::Stop, units@), Display::Quiet),
        ),
        Command::Restart { units } => Ok(
            Course::Send(units_wish(UnitsOp::Restart, units@), Display::Quiet),
        ),
        Command::Reload { units } => Ok(
            Course::Send(units_wish(UnitsOp::Reload, units@), Display::Quiet),
        ),
        Command::RestartOrStart { units } => Ok(
            Course::Send(units_wish(UnitsOp::Restart, units@), Display::Quiet),
        ),
        Command::Kill { unit, signal } => match kill_signal_of(opt_text(signal)) {
            Some(n) => Ok(
                Course::Send(wish_json(Wish::Kill(unit@, signal_name(n))), Display::Quiet),
            ),
            None => Err("unknown signal `"@ + signal->0@ + "`"@),
        },
        Command::Status { units, .. } => Ok(
            Course::Send(units_wish(UnitsOp::Status, units@), Display::Status),
        ),
        Command::IsActive { units } => Ok(
            Course::Send(units_wish(UnitsOp::IsActive, units@), Display::IsActive),
        ),
        Command::IsFailed { units } => Ok(
            Course::Send(units_wish(UnitsOp::IsFailed, units@), Display::IsFailed),
        ),
        Command::IsEnabled { units } => Ok(Course::IsEnabled(texts(units@))),
        Command::Enable { units, now } => Ok(
            Course::Enable(
                all_normalized(texts(units@)),
                if now {
                    Sequel::Send(units_wish(UnitsOp::Start, units@))
                } else {
                    Sequel::Try(wish_json(Wish::DaemonReload))
                },
            ),
        ),
        Command::Disable { units, now } => Ok(
            Course::Disable(
                all_normalized(texts(units@)),
                if now {
                    Sequel::Send(units_wish(UnitsOp::Stop, units@))
                } else {
                    Sequel::Nothing
                },
            ),
        ),
        Command::DaemonReload => Ok(Course::Send(wish_json(Wish::DaemonReload), Display::Quiet)),
        Command::ListUnits { type_, state, no_legend, .. } => Ok(
            Course::Send(
                wish_json(Wish::ListUnits(type_list(type_), opt_text(state))),
                Display::ListUnits(!no_legend),
            ),
        ),
        Command::ListUnitFiles { no_legend } => Ok(
            Course::Send(wish_json(Wish::ListUnitFiles), Display::ListUnitFiles(!no_legend)),
        ),
        Command::ListTimers { no_legend, .. } => Ok(
            Course::Send(wish_json(Wish::ListTimers), Display::ListTimers(!no_legend)),
        ),
        Command::Cat { units } => Ok(Course::Send(units_wish(UnitsOp::Cat, units@), Display::Cat)),
        Command::Show { units, property, value } => Ok(
            Course::Send(
                units_json("show"@, all_normalized(texts(units@))),
                Display::Show(texts(property@), value),
            ),
        ),
        Command::GetDefault => Ok(Course::Send(wish_json(Wish::GetDefault), Display::GetDefault)),
        Command::SetDefault { target } => Ok(
            Course::Send(wish_json(Wish::SetDefault(target@)), Display::Quiet),
        ),
        Command::Isolate { target } => Ok(
            Course::Send(wish_json(Wish::Isolate(target@)), Display::Quiet),
        ),
        Command::IsSystemRunning => Ok(
            Course::Send(simple_json("is_system_running"@), Display::IsSystemRunning),
        ),
        Command::Poweroff => Ok(Course::Send(simple_json("shutdown"@), Display::Quiet)),
        Command::Version => Ok(Course::Print("rustemctl "@ + version)),
        Command::Completions { shell } => Ok(Course::Completions(shell)),
    }
}

/// The result, as specifications see it.
pub open spec fn plan_result(r: Result<Plan, String>) -> Result<Course, Text> {
    match r {
        Ok(p) => Ok(p@),
        Err(e) => Err(e@),
    }
}

fn ask_units(op: UnitsOp, units: Vec<String>) -> (r: serde_json::Value)
    ensures
        json_of(r) == units_wish(op, units@),
{
    request_of(&Ask::Units { op, units })
}

impl Cli {
    /// What the command does, or why it is refused.
    pub fn dispatch(self, client: &Client, version: &str) -> (r: Result<Plan, String>)
        ensures
            plan_result(r) == course_of(self.cmd, version@),
    {
        match self.cmd {
            Command::Start { units } => Ok(
                Plan::Send(ask_units(UnitsOp::Start, units), Reply::Quiet),
            ),
            Command::Stop { units } => Ok(Plan::Send(ask_units(UnitsOp::Stop, units), Reply::Quiet)),
            Command::Restart { units } => Ok(
                Plan::Send(ask_units(UnitsOp::Restart, units), Reply::Quiet),
            ),
            Command::Reload { units } => Ok(
                Plan::Send(ask_units(UnitsOp::Reload, units), Reply::Quiet),
            ),
            Command::RestartOrStart { units } => Ok(
                Plan::Send(ask_units(UnitsOp::Restart, units), Reply::Quiet),
            ),
            Command::Kill { unit, signal } => {
                let number = match signal {
                    None => Signal::sigterm(),
                    Some(s) => match sig_from_name(s.as_str()) {
                        Some(g) => g,
                        None => {
                            return Err(cat3("unknown signal `", s.as_str(), "`"));
                        },
                    },
                };
                let request = request_of(&Ask::Kill { unit, signal: number.show() });
                Ok(Plan::Send(request, Reply::Quiet))
            },
            Command::Status { units, full: _ } => Ok(
                Plan::Send(ask_units(UnitsOp::Status, units), Reply::Status),
            ),
            Command::IsActive { units } => Ok(
                Plan::Send(ask_units(UnitsOp::IsActive, units), Reply::IsActive),
            ),
            Command::IsFailed { units } => Ok(
                Plan::Send(ask_units(UnitsOp::IsFailed, units), Reply::IsFailed),
            ),
            Command::IsEnabled { units } => Ok(Plan::IsEnabled(units)),
            Command::Enable { units, now } => {
                let names = normalize(&units);
                let after = if now {
                    After::Send(ask_units(UnitsOp::Start, units))
                } else {
                    After::Try(request_of(&Ask::DaemonReload))
                };
                Ok(Plan::Enable(names, after))
            },
            Command::Disable { units, now } => {
                let names = normalize(&units);
                let after = if now {
                    After::Send(ask_units(UnitsOp::Stop, units))
                } else {
                    After::Nothing
                };
                Ok(Plan::Disable(names, after))
            },
            Command::DaemonReload => Ok(Plan::Send(request_of(&Ask::DaemonReload), Reply::Quiet)),
            Command::ListUnits { type_, state, no_legend, plain: _ } => {
                let types: Vec<String> = match type_ {
                    Some(v) => v,
                    None => Vec::new(),
                };
                assert(texts(types@) =~= type_list(type_));
                Ok(
                    Plan::Send(
                        request_of(&Ask::ListUnits { types, state }),
                        Reply::ListUnits { legend: !no_legend },
                    ),
                )
            },
            Command::ListUnitFiles { no_legend } => Ok(
                Plan::Send(
                    request_of(&Ask::ListUnitFiles),
                    Reply::ListUnitFiles { legend: !no_legend },
                ),
            ),
            Command::ListTimers { no_legend, all: _ } => Ok(
                Plan::Send(
                    request_of(&Ask::ListTimers),
                    Reply::ListTimers { legend: !no_legend },
                ),
            ),
            Command::Cat { units } => Ok(Plan::Send(ask_units(UnitsOp::Cat, units), Reply::Cat)),
            Command::Show { units, property, value } => {
                let names = normalize(&units);
                Ok(Plan::Send(client.units_op("show", &names), Reply::Show { property, value }))
            },
            Command::GetDefault => Ok(Plan::Send(request_of(&Ask::GetDefault), Reply::GetDefault)),
            Command::SetDefault { target } => Ok(
                Plan::Send(request_of(&Ask::SetDefault { unit: target }), Reply::Quiet),
            ),
            Command::Isolate { target } => Ok(
                Plan::Send(request_of(&Ask::Isolate { unit: target }), Reply::Quiet),
            ),
            Command::IsSystemRunning => Ok(
                Plan::Send(client.simple_op("is_system_running"), Reply::IsSystemRunning),
            ),
            Command::Poweroff => Ok(Plan::Send(client.simple_op("shutdown"), Reply::Quiet)),
            Command::Version => Ok(Plan::Print(cat2("rustemctl ", version))),
            Command::Completions { shell } => Ok(Plan::Completions(shell)),
        }
    }
}

/// The exit code of a command, from what it came to; the message of a failure
/// is printed behind a styled `Failed:`.
pub fn run(result: &Result<i32, String>) -> (r: (i32, Option<String>))
    ensures
        match *result {
            Ok(code) => r.0 == code && r.1 is None,
            Err(e) => r.0 == 1 && r.1 is Some && (r.1->0)@ == " "@ + e@,
        },
{
    match result {
        Ok(code) => (*code, None),
        Err(e) => (1, Some(cat2(" ", e.as_str()))),
    }
}

/// How bad an enable state is, as an exit code.
pub open spec fn state_code(s: Text) -> i32 {
    if s == "not-found"@ {
        3i32
    } else if s == "disabled"@ || s == "masked"@ {
        1i32
    } else {
        0i32
    }
}

/// How bad the worst of the states is.
pub open spec fn worst_code(v: Seq<Text>) -> i32
    decreases v.len(),
{
    if v.len() == 0 {
        0i32
    } else {
        let a = worst_code(v.drop_last());
        let b = state_code(v.last());
        if a >= b {
            a
        } else {
            b
        }
    }
}

/// The exit code of `is-enabled`, from the states of the units.
pub fn cmd_is_enabled(states: &Vec<String>) -> (r: i32)
    ensures
        r == worst_code(texts(states@)),
{
    let ghost all = texts(states@);
    let mut worst: i32 = 0;
    let mut i: usize = 0;
    assert(all.take(0) =~= seq![]);
    while i < states.len()
        invariant
            i <= states.len(),
            all == texts(states@),
            worst == worst_code(all.take(i as int)),
        decreases states.len() - i,
    {
        let s = states[i].as_str();
        let ghost upto = all.take(i + 1);
        proof {
            assert(upto.drop_last() =~= all.take(i as int));
            assert(upto.last() == s@);
        }
        let code: i32 = if crate::text::same(s, "not-found") {
            3
        } else if crate::text::same(s, "disabled") || crate::text::same(s, "masked") {
            1
        } else {
            0
        };
        if code > worst {
            worst = code;
        }
        i = i + 1;
    }
    assert(all.take(states.len() as int) =~= all);
    worst
}

/// The signal that `kill` names arrives: the manager is asked to send that
/// signal to that unit. A signal that is not known is refused before anything is
/// sent.
pub proof fn kill_arrives(unit: String, signal: Option<String>, version: Text)
    ensures
        match kill_signal_of(opt_text(signal)) {
            Some(n) => ({
                let c = course_of(Command::Kill { unit, signal }, version);
                &&& c is Ok
                &&& c->Ok_0 is Send
                &&& asked(c->Ok_0->Send_0) == Ok::<Asked, Text>(Asked::Kill(normalized(unit@), n))
            }),
            None => course_of(Command::Kill { unit, signal }, version) is Err,
        },
{
    match kill_signal_of(opt_text(signal)) {
        Some(n) => {
            assert(is_signal(n));
            shown_signal_reads_back(n);
            requests_arrive(Wish::Kill(unit@, signal_name(n)));
        },
        None => {},
    }
}

} // verus!
