//! Unit active-state machine and per-unit runtime state.
//!
//! Wall-clock times are whole seconds since the epoch, monotonic ones whole
//! microseconds; the caller reads the clocks.

use vstd::prelude::*;

use crate::log::LogRing;
use crate::text::{cat2, cut_last, opt_text, owned, rsplit_once, Text};
use crate::unit::config::{
    MountConfig, ServiceConfig, SocketConfig, TimerConfig, UnitFile, UnitKind,
};

verus! {

pub type Pid = i32;

#[derive(Debug, Clone, Copy, PartialEq, Eq, Structural)]
pub enum ActiveState {
    Inactive,
    Activating,
    Active,
    Deactivating,
    Failed,
}

#[derive(Debug, Clone, Copy, PartialEq, Eq, Structural)]
pub enum SubState {
    Dead,
    StartPre,
    Start,
    Post,
    Running,
    /// A mounted mount unit.
    Mounted,
    Exited,
    WaitingForBus,
    Stop,
    StopSigterm,
    StopSigkill,
    StopPost,
    FinalSigterm,
    FinalSigkill,
    AutoRestart,
    Failed,
}

pub open spec fn sub_text(s: SubState) -> Text {
    match s {
        SubState::Dead => "dead"@,
        SubState::StartPre => "start-pre"@,
        SubState::Start => "start"@,
        SubState::Post => "post"@,
        SubState::Running => "running"@,
        SubState::Mounted => "mounted"@,
        SubState::Exited => "exited"@,
        SubState::WaitingForBus => "waiting-for-bus"@,
        SubState::Stop => "stop"@,
        SubState::StopSigterm => "stop-sigterm"@,
        SubState::StopSigkill => "stop-sigkill"@,
        SubState::StopPost => "stop-post"@,
        SubState::FinalSigterm => "final-sigterm"@,
        SubState::FinalSigkill => "final-sigkill"@,
        SubState::AutoRestart => "auto-restart"@,
        SubState::Failed => "failed"@,
    }
}

impl SubState {
    pub fn as_str(&self) -> (r: &'static str)
        ensures
            r@ == sub_text(*self),
    {
        match self {
            SubState::Dead => "dead",
            SubState::StartPre => "start-pre",
            SubState::Start => "start",
            SubState::Post => "post",
            SubState::Running => "running",
            SubState::Mounted => "mounted",
            SubState::Exited => "exited",
            SubState::WaitingForBus => "waiting-for-bus",
            SubState::Stop => "stop",
            SubState::StopSigterm => "stop-sigterm",
            SubState::StopSigkill => "stop-sigkill",
            SubState::StopPost => "stop-post",
            SubState::FinalSigterm => "final-sigterm",
            SubState::FinalSigkill => "final-sigkill",
            SubState::AutoRestart => "auto-restart",
            SubState::Failed => "failed",
        }
    }
}

#[derive(Debug, Clone, Copy, PartialEq, Eq, Structural)]
pub enum UnitResult {
    Success,
    ExitCode,
    Signal,
    Timeout,
    StartLimitHit,
    Dependency,
    Resources,
    Protocol,
    Watchdog,
    Exec,
    Unknown,
}

#[derive(Debug, Clone, Copy, PartialEq, Eq, Structural)]
pub enum LoadState {
    Loaded,
    NotFound,
    Error,
}

/// Which command the control process is currently running.
#[derive(Debug, Clone, Copy, PartialEq, Eq, Structural)]
pub enum ControlCommand {
    StartPre,
    Start,
    StartPost,
    Stop,
    Reload,
    Kill,
}

/// Per-unit runtime state.
#[derive(Debug)]
pub struct Unit {
    pub name: String,
    pub kind: UnitKind,
    pub file: Option<UnitFile>,
    pub load: LoadState,
    pub path: Option<String>,
    pub load_error: Option<String>,
    pub active: ActiveState,
    pub sub: SubState,
    pub result: UnitResult,
    /// Main process of a running service.
    pub main_pid: Option<Pid>,
    /// Process-group leader of the service.
    pub group_pid: Option<Pid>,
    /// Control-group directory of the unit's processes, if it has one.
    pub cgroup: Option<String>,
    /// Index into the current list of commands.
    pub cmd_index: usize,
    /// The current control process.
    pub control_pid: Option<Pid>,
    /// Which command the control process runs.
    pub control_command: Option<ControlCommand>,
    /// For a forking service: the process that its PID file names.
    pub forked_main_pid: Option<Pid>,
    pub active_enter: Option<i64>,
    pub inactive_enter: Option<i64>,
    /// When the current control command was started.
    pub control_start: Option<u64>,
    pub stop_started: Option<u64>,
    pub last_exit_code: Option<i32>,
    pub last_exit_signal: Option<i32>,
    pub stop_sent_kill: bool,
    pub log: LogRing,
    /// When the unit is restarted by itself.
    pub restart_at: Option<u64>,
    /// Times of the latest starts, for the start limit.
    pub start_window: Vec<u64>,
    pub notify_fd: Option<i32>,
    pub notify_ready: bool,
    /// Scheduling state of a timer.
    pub timer: Option<TimerState>,
}

/// How many lines of output a unit keeps.
pub const LOG_LINES: usize = 200;

/// The part of a unit name before its suffix.
pub open spec fn name_stem(name: Text) -> Text {
    match cut_last(name, '.') {
        Some((a, _)) => a,
        None => name,
    }
}

/// The unit that a trigger activates: the one it names, else the service of its
/// own name.
pub open spec fn activated(name: Text, named: Option<Text>) -> Text {
    match named {
        Some(u) => u,
        None => name_stem(name) + ".service"@,
    }
}

/// The unit that a timer's settings name.
pub open spec fn timer_target(u: Unit) -> Option<Text> {
    match u.file {
        Some(f) => match f.timer {
            Some(t) => opt_text(t.unit),
            None => None,
        },
        None => None,
    }
}

/// The service that a socket's settings name.
pub open spec fn socket_target(u: Unit) -> Option<Text> {
    match u.file {
        Some(f) => match f.socket {
            Some(s) => opt_text(s.service),
            None => None,
        },
        None => None,
    }
}

/// A unit after it has entered a state. A result other than success is kept;
/// becoming active sets the time and ends a pending restart; leaving a state
/// after having been active sets the time too.
pub open spec fn entered(
    u: Unit,
    state: ActiveState,
    sub: SubState,
    result: UnitResult,
    now: i64,
) -> Unit {
    let kept = if result == UnitResult::Success {
        u.result
    } else {
        result
    };
    let v = Unit { active: state, sub, result: kept, ..u };
    match state {
        ActiveState::Active => Unit {
            active_enter: Some(now),
            inactive_enter: None,
            restart_at: None,
            ..v
        },
        ActiveState::Activating => v,
        _ => if u.active_enter is Some {
            Unit { inactive_enter: Some(now), ..v }
        } else {
            v
        },
    }
}

fn service_named_after(name: &str) -> (r: String)
    ensures
        r@ == name_stem(name@) + ".service"@,
{
    match rsplit_once(name, '.') {
        Some((a, _)) => cat2(a, ".service"),
        None => cat2(name, ".service"),
    }
}

impl Unit {
    /// A unit that nothing is known of yet.
    pub fn new(name: &str, kind: UnitKind, now: i64) -> (r: Unit)
        ensures
            r.name@ == name@,
            r.kind == kind,
            r.file is None,
            r.load == LoadState::NotFound,
            r.path is None,
            r.load_error is None,
            r.active == ActiveState::Inactive,
            r.sub == SubState::Dead,
            r.result == UnitResult::Success,
            r.main_pid is None,
            r.group_pid is None,
            r.cgroup is None,
            r.cmd_index == 0,
            r.control_pid is None,
            r.control_command is None,
            r.forked_main_pid is None,
            r.active_enter is None,
            r.inactive_enter == Some(now),
            r.control_start is None,
            r.stop_started is None,
            r.last_exit_code is None,
            r.last_exit_signal is None,
            !r.stop_sent_kill,
            r.log@ == Seq::<Text>::empty(),
            r.log.max() == LOG_LINES,
            r.log.max() == 200,
            r.restart_at is None,
            r.start_window@ == Seq::<u64>::empty(),
            r.notify_fd is None,
            !r.notify_ready,
            r.timer is None,
    {
        Unit {
            name: owned(name),
            kind,
            file: None,
            load: LoadState::NotFound,
            path: None,
            load_error: None,
            active: ActiveState::Inactive,
            sub: SubState::Dead,
            result: UnitResult::Success,
            main_pid: None,
            group_pid: None,
            cgroup: None,
            cmd_index: 0,
            control_pid: None,
            control_command: None,
            forked_main_pid: None,
            active_enter: None,
            inactive_enter: Some(now),
            control_start: None,
            stop_started: None,
            last_exit_code: None,
            last_exit_signal: None,
            stop_sent_kill: false,
            log: LogRing::new(LOG_LINES),
            restart_at: None,
            start_window: Vec::new(),
            notify_fd: None,
            notify_ready: false,
            timer: None,
        }
    }

    pub fn service_cfg(&self) -> (r: Option<&ServiceConfig>)
        ensures
            match r {
                Some(c) => self.file is Some && self.file->0.service == Some(*c),
                None => self.file is None || self.file->0.service is None,
            },
    {
        match &self.file {
            Some(f) => f.service.as_ref(),
            None => None,
        }
    }

    pub fn timer_cfg(&self) -> (r: Option<&TimerConfig>)
        ensures
            match r {
                Some(c) => self.file is Some && self.file->0.timer == Some(*c),
                None => self.file is None || self.file->0.timer is None,
            },
    {
        match &self.file {
            Some(f) => f.timer.as_ref(),
            None => None,
        }
    }

    pub fn socket_cfg(&self) -> (r: Option<&SocketConfig>)
        ensures
            match r {
                Some(c) => self.file is Some && self.file->0.socket == Some(*c),
                None => self.file is None || self.file->0.socket is None,
            },
    {
        match &self.file {
            Some(f) => f.socket.as_ref(),
            None => None,
        }
    }

    pub fn mount_cfg(&self) -> (r: Option<&MountConfig>)
        ensures
            match r {
                Some(c) => self.file is Some && self.file->0.mount == Some(*c),
                None => self.file is None || self.file->0.mount is None,
            },
    {
        match &self.file {
            Some(f) => f.mount.as_ref(),
            None => None,
        }
    }

    /// The unit that a timer activates (by default the service of its name).
    pub fn activated_unit(&self) -> (r: String)
        ensures
            r@ == activated(self.name@, timer_target(*self)),
    {
        match self.timer_cfg() {
            Some(t) => match &t.unit {
                Some(u) => u.clone(),
                None => service_named_after(self.name.as_str()),
            },
            None => service_named_after(self.name.as_str()),
        }
    }

    /// The service that a socket activates (by default the one of its name).
    pub fn activated_service(&self) -> (r: String)
        ensures
            r@ == activated(self.name@, socket_target(*self)),
    {
        match self.socket_cfg() {
            Some(s) => match &s.service {
                Some(u) => u.clone(),
                None => service_named_after(self.name.as_str()),
            },
            None => service_named_after(self.name.as_str()),
        }
    }

    /// Enter a state.
    pub fn set_active(&mut self, state: ActiveState, sub: SubState, result: UnitResult, now: i64)
        ensures
            *final(self) == entered(*old(self), state, sub, result, now),
    {
        self.active = state;
        self.sub = sub;
        if result != UnitResult::Success {
            self.result = result;
        }
        match state {
            ActiveState::Active => {
                self.active_enter = Some(now);
                self.inactive_enter = None;
                self.restart_at = None;
            },
            ActiveState::Activating => {},
            _ => {
                if self.active_enter.is_some() {
                    self.inactive_enter = Some(now);
                }
            },
        }
    }
}

/// Bookkeeping for a timer's next elapse.
#[derive(Debug, Clone)]
pub struct TimerState {
    /// Next wall-clock trigger, and the index of its calendar expression.
    pub next_calendar: Option<(u64, usize)>,
    /// Next monotonic trigger.
    pub next_monotonic: Option<u64>,
    pub last_trigger: Option<i64>,
    pub last_trigger_calendar: Option<(u64, usize)>,
    pub last_trigger_monotonic: Option<u64>,
    /// Last result of the unit that was triggered.
    pub last_result: Option<UnitResult>,
    /// Next trigger, for display.
    pub next_display: Option<i64>,
    /// The expressions, for display.
    pub spec_strings: Vec<String>,
}

impl TimerState {
    pub fn new(spec_strings: Vec<String>) -> (r: TimerState)
        ensures
            r.next_calendar is None,
            r.next_monotonic is None,
            r.last_trigger is None,
            r.last_trigger_calendar is None,
            r.last_trigger_monotonic is None,
            r.last_result is None,
            r.next_display is None,
            r.spec_strings == spec_strings,
    {
        TimerState {
            next_calendar: None,
            next_monotonic: None,
            last_trigger: None,
            last_trigger_calendar: None,
            last_trigger_monotonic: None,
            last_result: None,
            next_display: None,
            spec_strings,
        }
    }
}

/// A unit that is active has the time at which it became so and no pending
/// restart; and a failure is not forgotten when the next state reports success.
pub proof fn entering_keeps_the_books(
    u: Unit,
    state: ActiveState,
    sub: SubState,
    result: UnitResult,
    now: i64,
)
    ensures
        entered(u, state, sub, result, now).active == state,
        entered(u, state, sub, result, now).sub == sub,
        state == ActiveState::Active ==> entered(u, state, sub, result, now).active_enter == Some(
            now,
        ) && entered(u, state, sub, result, now).restart_at is None,
        result == UnitResult::Success ==> entered(u, state, sub, result, now).result == u.result,
        state != ActiveState::Active ==> entered(u, state, sub, result, now).active_enter
            == u.active_enter,
{
}

} // verus!
