//! What the manager does to a unit and reports of it, in terms of the unit's own
//! settings and state.

use vstd::prelude::*;

use crate::json::Json;
use crate::manager::deps::{
    depends, is_path, lists_requires, reaches, requiring_is_listing, Edge,
};
use crate::manager::ops::{
    active_text, cat_entries, cat_entry, clean_text, dependency_of, file_infos, is_dependency_list,
    is_segment_of, is_unit_file, isolate_stops, isolating_stops_what_is_not_required, listed_timer,
    listed_unit, load_text, properties, property, reset, result_text, shown_units, summaries,
    timer_info, timer_infos, try_restart_of, unit_status, unit_summary, Lifecycle, ListedFile,
    ReadFile,
};
use crate::manager::state::{
    activated, entered, sub_text, ActiveState, ControlCommand, LoadState, SubState,
    Unit, UnitResult,
};
use crate::manager::unit_type::{
    DeviceUnit, Next, ServiceUnit, SocketUnit, Step, TargetUnit, TimerUnit, UnitType,
};
use crate::names::normalized;
use crate::platform::signal::Signal;
use crate::table::are_sorted_keys;
use crate::text::{chr, decimal, ends, find_last_unique, within, Text};
use crate::unit::config::{ServiceConfig, UnitFile, UnitKind};

verus! {

// ---- starting and stopping ------------------------------------------------------

/// Is the unit one with these service settings?
pub open spec fn is_service(u: Unit, f: UnitFile, s: ServiceConfig) -> bool {
    u.file == Some(f) && f.service == Some(s)
}

/// A service with processes is sent the signal that `KillSignal=` sets, whichever
/// it is, and is then waiting for them to end.
pub proof fn stopping_sends_the_kill_signal(u: Unit, f: UnitFile, s: ServiceConfig, g: Signal)
    requires
        is_service(u, f, s),
        s.kill_signal == Some(g),
    ensures
        ServiceUnit.stopping(u, true).1 == Next::Terminate(g.raw()),
        ServiceUnit.stopping(u, true).1 == Step::Terminate(g)@,
        ServiceUnit.stopping(u, true).0 == (Unit { sub: SubState::StopSigterm, ..u }),
{
}

/// Where no signal is set, it is the one with number 15, `SIGTERM`; another one
/// is sent only where it is set.
pub proof fn stopping_sends_sigterm_by_default(u: Unit)
    ensures
        (forall|f: UnitFile, s: ServiceConfig|
            #[trigger] is_service(u, f, s) ==> s.kill_signal is None)
            ==> ServiceUnit.stopping(u, true).1 == Next::Terminate(15),
        ServiceUnit.stopping(u, true).1 != Next::Terminate(15) ==> exists|
            f: UnitFile,
            s: ServiceConfig,
        |
            #[trigger] is_service(u, f, s) && s.kill_signal is Some
                && ServiceUnit.stopping(u, true).1 == Next::Terminate(s.kill_signal->0.raw()),
        ServiceUnit.stopping(u, true).0 == (Unit { sub: SubState::StopSigterm, ..u }),
{
    if u.file is Some && u.file->0.service is Some {
        assert(is_service(u, u.file->0, u.file->0.service->0));
    }
}

/// A service without processes runs its first `ExecStop=` command; without such
/// commands it is stopped, and nothing about it changes.
pub proof fn stopping_runs_the_stop_commands(
    u: Unit,
    f: UnitFile,
    s: ServiceConfig,
)
    requires
        is_service(u, f, s),
    ensures
        s.exec_stop@.len() > 0 ==> ServiceUnit.stopping(u, false) == (
            Unit { sub: SubState::Stop, ..u },
            Next::SpawnControl(ControlCommand::Stop, 0),
        ),
        s.exec_stop@.len() == 0 ==> ServiceUnit.stopping(u, false) == (u, Next::FinalizeStop),
{
}

/// A service that is started runs its first `ExecStartPre=` command, and its
/// first `ExecStart=` one only where it has none of those.
pub proof fn starting_runs_the_earliest_commands(
    u: Unit,
    f: UnitFile,
    s: ServiceConfig,
    now: i64,
)
    requires
        is_service(u, f, s),
    ensures
        s.exec_start_pre@.len() > 0 ==> ServiceUnit.starting(u, now).1 == Next::SpawnControl(
            ControlCommand::StartPre,
            0,
        ),
        s.exec_start_pre@.len() == 0 ==> ServiceUnit.starting(u, now).1 == Next::SpawnControl(
            ControlCommand::Start,
            0,
        ),
{
}

/// A service that is started knows no processes and no failure of an earlier
/// run; what it was loaded from, and what was logged, stays.
pub proof fn starting_forgets_the_last_run(u: Unit, now: i64)
    ensures
        ({
            let v = ServiceUnit.starting(u, now).0;
            &&& v.active == ActiveState::Activating
            &&& v.sub == SubState::StartPre
            &&& v.result == UnitResult::Success
            &&& v.main_pid is None && v.group_pid is None && v.control_pid is None
            &&& v.forked_main_pid is None
            &&& v.control_command is None
            &&& v.cmd_index == 0
            &&& v.name == u.name && v.kind == u.kind && v.file == u.file && v.load == u.load
            &&& v.path == u.path && v.load_error == u.load_error && v.cgroup == u.cgroup
            &&& v.active_enter == u.active_enter && v.inactive_enter == u.inactive_enter
            &&& v.log == u.log && v.restart_at == u.restart_at
            &&& v.start_window == u.start_window && v.timer == u.timer
            &&& v.last_exit_code == u.last_exit_code
            &&& v.last_exit_signal == u.last_exit_signal
        }),
{
}

/// A target, a timer and a device are active the instant they are started; a
/// socket is when it listens.
pub proof fn markers_are_active_at_once(u: Unit, now: i64)
    ensures
        TargetUnit.starting(u, now).0 == DeviceUnit.starting(u, now).0,
        TargetUnit.starting(u, now).0 == TimerUnit.starting(u, now).0,
        ({
            let v = TargetUnit.starting(u, now).0;
            v.active == ActiveState::Active && v.active_enter == Some(now) && v.inactive_enter
                is None && v.restart_at is None && v.name == u.name && v.file == u.file
        }),
        TargetUnit.starting(u, now).1 == Step::CompleteStartJob@,
        DeviceUnit.starting(u, now).1 == Step::CompleteStartJob@,
        TimerUnit.starting(u, now).1 == Step::CompleteStartJob@,
        SocketUnit.starting(u, now) == (u, Step::StartSocket@),
        SocketUnit.stopping(u, true) == (u, Step::StopSocket@),
        TargetUnit.stopping(u, true) == (u, Step::FinalizeStop@),
        TimerUnit.stopping(u, true) == (u, Step::FinalizeStop@),
        DeviceUnit.stopping(u, true) == (u, Step::FinalizeStop@),
{
}

/// A step says what is done, and two steps that differ are seen to.
pub proof fn steps_are_told_apart(c: ControlCommand, i: usize, g: Signal)
    ensures
        Step::SpawnControl(c, i)@ == Next::SpawnControl(c, i as nat),
        Step::Terminate(g)@ == Next::Terminate(g.raw()),
        Step::CompleteStartJob@ is CompleteStartJob,
        Step::FinalizeStop@ is FinalizeStop,
        Step::StartSocket@ is StartSocket,
        Step::StopSocket@ is StopSocket,
{
}

/// When a unit enters a state: a failure is kept until another one comes, the
/// time is set when it becomes active and when it ceases to be, and nothing else
/// about it changes.
pub proof fn entering_changes_the_state_alone(
    u: Unit,
    state: ActiveState,
    sub: SubState,
    result: UnitResult,
    now: i64,
)
    ensures
        ({
            let v = entered(u, state, sub, result, now);
            &&& v.active == state && v.sub == sub
            &&& v.result == u.result || v.result == result
            &&& result != UnitResult::Success ==> v.result == result
            &&& result == UnitResult::Success ==> v.result == u.result
            &&& state == ActiveState::Active ==> v.active_enter == Some(now) && v.inactive_enter
                is None && v.restart_at is None
            &&& state != ActiveState::Active ==> v.active_enter == u.active_enter && v.restart_at
                == u.restart_at
            &&& state == ActiveState::Activating ==> v.inactive_enter == u.inactive_enter
            &&& (state == ActiveState::Inactive || state == ActiveState::Deactivating || state
                == ActiveState::Failed) ==> v.inactive_enter == (if u.active_enter is Some {
                Some(now)
            } else {
                u.inactive_enter
            })
            &&& v == (Unit {
                active: v.active,
                sub: v.sub,
                result: v.result,
                active_enter: v.active_enter,
                inactive_enter: v.inactive_enter,
                restart_at: v.restart_at,
                ..u
            })
        }),
{
}

// ---- how states are shown -------------------------------------------------------

/// Each sub-state has its own text, and no two have the same: the text tells the
/// sub-state.
pub proof fn sub_states_are_told_by_their_texts(s: SubState, t: SubState)
    ensures
        sub_text(s) == "dead"@ <==> s == SubState::Dead,
        sub_text(s) == "start-pre"@ <==> s == SubState::StartPre,
        sub_text(s) == "start"@ <==> s == SubState::Start,
        sub_text(s) == "post"@ <==> s == SubState::Post,
        sub_text(s) == "running"@ <==> s == SubState::Running,
        sub_text(s) == "mounted"@ <==> s == SubState::Mounted,
        sub_text(s) == "exited"@ <==> s == SubState::Exited,
        sub_text(s) == "waiting-for-bus"@ <==> s == SubState::WaitingForBus,
        sub_text(s) == "stop"@ <==> s == SubState::Stop,
        sub_text(s) == "stop-sigterm"@ <==> s == SubState::StopSigterm,
        sub_text(s) == "stop-sigkill"@ <==> s == SubState::StopSigkill,
        sub_text(s) == "stop-post"@ <==> s == SubState::StopPost,
        sub_text(s) == "final-sigterm"@ <==> s == SubState::FinalSigterm,
        sub_text(s) == "final-sigkill"@ <==> s == SubState::FinalSigkill,
        sub_text(s) == "auto-restart"@ <==> s == SubState::AutoRestart,
        sub_text(s) == "failed"@ <==> s == SubState::Failed,
        sub_text(s) == sub_text(t) <==> s == t,
{
    reveal_strlit("dead");
    reveal_strlit("start-pre");
    reveal_strlit("start");
    reveal_strlit("post");
    reveal_strlit("running");
    reveal_strlit("mounted");
    reveal_strlit("exited");
    reveal_strlit("waiting-for-bus");
    reveal_strlit("stop");
    reveal_strlit("stop-sigterm");
    reveal_strlit("stop-sigkill");
    reveal_strlit("stop-post");
    reveal_strlit("final-sigterm");
    reveal_strlit("final-sigkill");
    reveal_strlit("auto-restart");
    reveal_strlit("failed");
    assert("dead"@ =~= seq!['d', 'e', 'a', 'd']);
    assert("start-pre"@ =~= seq!['s', 't', 'a', 'r', 't', '-', 'p', 'r', 'e']);
    assert("start"@ =~= seq!['s', 't', 'a', 'r', 't']);
    assert("post"@ =~= seq!['p', 'o', 's', 't']);
    assert("running"@ =~= seq!['r', 'u', 'n', 'n', 'i', 'n', 'g']);
    assert("mounted"@ =~= seq!['m', 'o', 'u', 'n', 't', 'e', 'd']);
    assert("exited"@ =~= seq!['e', 'x', 'i', 't', 'e', 'd']);
    assert("waiting-for-bus"@ =~= seq!['w', 'a', 'i', 't', 'i', 'n', 'g', '-', 'f', 'o', 'r', '-', 'b', 'u', 's']);
    assert("stop"@ =~= seq!['s', 't', 'o', 'p']);
    assert("stop-sigterm"@ =~= seq!['s', 't', 'o', 'p', '-', 's', 'i', 'g', 't', 'e', 'r', 'm']);
    assert("stop-sigkill"@ =~= seq!['s', 't', 'o', 'p', '-', 's', 'i', 'g', 'k', 'i', 'l', 'l']);
    assert("stop-post"@ =~= seq!['s', 't', 'o', 'p', '-', 'p', 'o', 's', 't']);
    assert("final-sigterm"@ =~= seq!['f', 'i', 'n', 'a', 'l', '-', 's', 'i', 'g', 't', 'e', 'r', 'm']);
    assert("final-sigkill"@ =~= seq!['f', 'i', 'n', 'a', 'l', '-', 's', 'i', 'g', 'k', 'i', 'l', 'l']);
    assert("auto-restart"@ =~= seq!['a', 'u', 't', 'o', '-', 'r', 'e', 's', 't', 'a', 'r', 't']);
    assert("failed"@ =~= seq!['f', 'a', 'i', 'l', 'e', 'd']);
}

/// Each active state has its own text.
pub proof fn active_states_are_told_by_their_texts(s: ActiveState, t: ActiveState)
    ensures
        active_text(s) == "inactive"@ <==> s == ActiveState::Inactive,
        active_text(s) == "activating"@ <==> s == ActiveState::Activating,
        active_text(s) == "active"@ <==> s == ActiveState::Active,
        active_text(s) == "deactivating"@ <==> s == ActiveState::Deactivating,
        active_text(s) == "failed"@ <==> s == ActiveState::Failed,
        active_text(s) == active_text(t) <==> s == t,
{
    reveal_strlit("inactive");
    reveal_strlit("activating");
    reveal_strlit("active");
    reveal_strlit("deactivating");
    reveal_strlit("failed");
    assert("inactive"@ =~= seq!['i', 'n', 'a', 'c', 't', 'i', 'v', 'e']);
    assert("activating"@ =~= seq!['a', 'c', 't', 'i', 'v', 'a', 't', 'i', 'n', 'g']);
    assert("active"@ =~= seq!['a', 'c', 't', 'i', 'v', 'e']);
    assert("deactivating"@ =~= seq!['d', 'e', 'a', 'c', 't', 'i', 'v', 'a', 't', 'i', 'n', 'g']);
    assert("failed"@ =~= seq!['f', 'a', 'i', 'l', 'e', 'd']);
}

/// Each load state has its own text.
pub proof fn load_states_are_told_by_their_texts(s: LoadState, t: LoadState)
    ensures
        load_text(s) == "loaded"@ <==> s == LoadState::Loaded,
        load_text(s) == "not-found"@ <==> s == LoadState::NotFound,
        load_text(s) == "error"@ <==> s == LoadState::Error,
        load_text(s) == load_text(t) <==> s == t,
{
    reveal_strlit("loaded");
    reveal_strlit("not-found");
    reveal_strlit("error");
    assert("loaded"@ =~= seq!['l', 'o', 'a', 'd', 'e', 'd']);
    assert("not-found"@ =~= seq!['n', 'o', 't', '-', 'f', 'o', 'u', 'n', 'd']);
    assert("error"@ =~= seq!['e', 'r', 'r', 'o', 'r']);
}

/// Each result has its own text.
pub proof fn results_are_told_by_their_texts(s: UnitResult, t: UnitResult)
    ensures
        result_text(s) == "success"@ <==> s == UnitResult::Success,
        result_text(s) == "exit-code"@ <==> s == UnitResult::ExitCode,
        result_text(s) == "signal"@ <==> s == UnitResult::Signal,
        result_text(s) == "timeout"@ <==> s == UnitResult::Timeout,
        result_text(s) == "start-limit-hit"@ <==> s == UnitResult::StartLimitHit,
        result_text(s) == "dependency"@ <==> s == UnitResult::Dependency,
        result_text(s) == "resources"@ <==> s == UnitResult::Resources,
        result_text(s) == "protocol"@ <==> s == UnitResult::Protocol,
        result_text(s) == "watchdog"@ <==> s == UnitResult::Watchdog,
        result_text(s) == "exec"@ <==> s == UnitResult::Exec,
        result_text(s) == "unknown"@ <==> s == UnitResult::Unknown,
        result_text(s) == result_text(t) <==> s == t,
{
    reveal_strlit("success");
    reveal_strlit("exit-code");
    reveal_strlit("signal");
    reveal_strlit("timeout");
    reveal_strlit("start-limit-hit");
    reveal_strlit("dependency");
    reveal_strlit("resources");
    reveal_strlit("protocol");
    reveal_strlit("watchdog");
    reveal_strlit("exec");
    reveal_strlit("unknown");
    assert("success"@ =~= seq!['s', 'u', 'c', 'c', 'e', 's', 's']);
    assert("exit-code"@ =~= seq!['e', 'x', 'i', 't', '-', 'c', 'o', 'd', 'e']);
    assert("signal"@ =~= seq!['s', 'i', 'g', 'n', 'a', 'l']);
    assert("timeout"@ =~= seq!['t', 'i', 'm', 'e', 'o', 'u', 't']);
    assert("start-limit-hit"@ =~= seq!['s', 't', 'a', 'r', 't', '-', 'l', 'i', 'm', 'i', 't', '-', 'h', 'i', 't']);
    assert("dependency"@ =~= seq!['d', 'e', 'p', 'e', 'n', 'd', 'e', 'n', 'c', 'y']);
    assert("resources"@ =~= seq!['r', 'e', 's', 'o', 'u', 'r', 'c', 'e', 's']);
    assert("protocol"@ =~= seq!['p', 'r', 'o', 't', 'o', 'c', 'o', 'l']);
    assert("watchdog"@ =~= seq!['w', 'a', 't', 'c', 'h', 'd', 'o', 'g']);
    assert("exec"@ =~= seq!['e', 'x', 'e', 'c']);
    assert("unknown"@ =~= seq!['u', 'n', 'k', 'n', 'o', 'w', 'n']);
}

// ---- what is reported of a unit -------------------------------------------------

/// The names of the properties differ.
proof fn property_names()
    ensures
        "Id"@ != "LoadState"@,
        "Id"@ != "ActiveState"@,
        "Id"@ != "SubState"@,
        "Id"@ != "MainPID"@,
        "Id"@ != "Description"@,
        "Id"@ != "UnitFileState"@,
        "Id"@ != "ActiveEnterTimestamp"@,
        "LoadState"@ != "ActiveState"@,
        "LoadState"@ != "SubState"@,
        "LoadState"@ != "MainPID"@,
        "LoadState"@ != "Description"@,
        "LoadState"@ != "UnitFileState"@,
        "LoadState"@ != "ActiveEnterTimestamp"@,
        "ActiveState"@ != "SubState"@,
        "ActiveState"@ != "MainPID"@,
        "ActiveState"@ != "Description"@,
        "ActiveState"@ != "UnitFileState"@,
        "ActiveState"@ != "ActiveEnterTimestamp"@,
        "SubState"@ != "MainPID"@,
        "SubState"@ != "Description"@,
        "SubState"@ != "UnitFileState"@,
        "SubState"@ != "ActiveEnterTimestamp"@,
        "MainPID"@ != "Description"@,
        "MainPID"@ != "UnitFileState"@,
        "MainPID"@ != "ActiveEnterTimestamp"@,
        "Description"@ != "UnitFileState"@,
        "Description"@ != "ActiveEnterTimestamp"@,
        "UnitFileState"@ != "ActiveEnterTimestamp"@,
{
    reveal_strlit("Id");
    reveal_strlit("LoadState");
    reveal_strlit("ActiveState");
    reveal_strlit("SubState");
    reveal_strlit("MainPID");
    reveal_strlit("Description");
    reveal_strlit("UnitFileState");
    reveal_strlit("ActiveEnterTimestamp");
    assert("Id"@ =~= seq!['I', 'd']);
    assert("LoadState"@ =~= seq!['L', 'o', 'a', 'd', 'S', 't', 'a', 't', 'e']);
    assert("ActiveState"@ =~= seq!['A', 'c', 't', 'i', 'v', 'e', 'S', 't', 'a', 't', 'e']);
    assert("SubState"@ =~= seq!['S', 'u', 'b', 'S', 't', 'a', 't', 'e']);
    assert("MainPID"@ =~= seq!['M', 'a', 'i', 'n', 'P', 'I', 'D']);
    assert("Description"@ =~= seq!['D', 'e', 's', 'c', 'r', 'i', 'p', 't', 'i', 'o', 'n']);
    assert("UnitFileState"@ =~= seq!['U', 'n', 'i', 't', 'F', 'i', 'l', 'e', 'S', 't', 'a', 't', 'e']);
    assert("ActiveEnterTimestamp"@ =~= seq!['A', 'c', 't', 'i', 'v', 'e', 'E', 'n', 't', 'e', 'r', 'T', 'i', 'm', 'e', 's', 't', 'a', 'm', 'p']);
}

/// A unit's sub-state is the same text in its status, in its row of `list-units`
/// and in its property `SubState`: the one that names it.
pub proof fn sub_state_is_reported(n: Text, u: Unit, enabled: Text)
    ensures
        property(n, u, enabled, "SubState"@) == Some(Json::Str(unit_status(u, enabled).sub)),
        unit_summary(n, u).sub == unit_status(u, enabled).sub,
        unit_status(u, enabled).sub == "dead"@ <==> u.sub == SubState::Dead,
        unit_status(u, enabled).sub == "start-pre"@ <==> u.sub == SubState::StartPre,
        unit_status(u, enabled).sub == "start"@ <==> u.sub == SubState::Start,
        unit_status(u, enabled).sub == "post"@ <==> u.sub == SubState::Post,
        unit_status(u, enabled).sub == "running"@ <==> u.sub == SubState::Running,
        unit_status(u, enabled).sub == "mounted"@ <==> u.sub == SubState::Mounted,
        unit_status(u, enabled).sub == "exited"@ <==> u.sub == SubState::Exited,
        unit_status(u, enabled).sub == "waiting-for-bus"@ <==> u.sub == SubState::WaitingForBus,
        unit_status(u, enabled).sub == "stop"@ <==> u.sub == SubState::Stop,
        unit_status(u, enabled).sub == "stop-sigterm"@ <==> u.sub == SubState::StopSigterm,
        unit_status(u, enabled).sub == "stop-sigkill"@ <==> u.sub == SubState::StopSigkill,
        unit_status(u, enabled).sub == "stop-post"@ <==> u.sub == SubState::StopPost,
        unit_status(u, enabled).sub == "final-sigterm"@ <==> u.sub == SubState::FinalSigterm,
        unit_status(u, enabled).sub == "final-sigkill"@ <==> u.sub == SubState::FinalSigkill,
        unit_status(u, enabled).sub == "auto-restart"@ <==> u.sub == SubState::AutoRestart,
        unit_status(u, enabled).sub == "failed"@ <==> u.sub == SubState::Failed,
{
    property_names();
    sub_states_are_told_by_their_texts(u.sub, u.sub);
}

/// So is its active state.
pub proof fn active_state_is_reported(n: Text, u: Unit, enabled: Text)
    ensures
        property(n, u, enabled, "ActiveState"@) == Some(
            Json::Str(unit_status(u, enabled).active),
        ),
        unit_summary(n, u).active == unit_status(u, enabled).active,
        unit_status(u, enabled).active == "inactive"@ <==> u.active == ActiveState::Inactive,
        unit_status(u, enabled).active == "activating"@ <==> u.active == ActiveState::Activating,
        unit_status(u, enabled).active == "active"@ <==> u.active == ActiveState::Active,
        unit_status(u, enabled).active == "deactivating"@ <==> u.active == ActiveState::Deactivating,
        unit_status(u, enabled).active == "failed"@ <==> u.active == ActiveState::Failed,
{
    property_names();
    active_states_are_told_by_their_texts(u.active, u.active);
}

/// So is its load state.
pub proof fn load_state_is_reported(n: Text, u: Unit, enabled: Text)
    ensures
        property(n, u, enabled, "LoadState"@) == Some(Json::Str(unit_status(u, enabled).load)),
        unit_summary(n, u).loaded == unit_status(u, enabled).load,
        unit_status(u, enabled).load == "loaded"@ <==> u.load == LoadState::Loaded,
        unit_status(u, enabled).load == "not-found"@ <==> u.load == LoadState::NotFound,
        unit_status(u, enabled).load == "error"@ <==> u.load == LoadState::Error,
{
    property_names();
    load_states_are_told_by_their_texts(u.load, u.load);
}

/// The status tells how the last run ended.
pub proof fn result_is_reported(u: Unit, enabled: Text)
    ensures
        unit_status(u, enabled).result == "success"@ <==> u.result == UnitResult::Success,
        unit_status(u, enabled).result == "exit-code"@ <==> u.result == UnitResult::ExitCode,
        unit_status(u, enabled).result == "signal"@ <==> u.result == UnitResult::Signal,
        unit_status(u, enabled).result == "timeout"@ <==> u.result == UnitResult::Timeout,
        unit_status(u, enabled).result == "start-limit-hit"@ <==> u.result == UnitResult::StartLimitHit,
        unit_status(u, enabled).result == "dependency"@ <==> u.result == UnitResult::Dependency,
        unit_status(u, enabled).result == "resources"@ <==> u.result == UnitResult::Resources,
        unit_status(u, enabled).result == "protocol"@ <==> u.result == UnitResult::Protocol,
        unit_status(u, enabled).result == "watchdog"@ <==> u.result == UnitResult::Watchdog,
        unit_status(u, enabled).result == "exec"@ <==> u.result == UnitResult::Exec,
        unit_status(u, enabled).result == "unknown"@ <==> u.result == UnitResult::Unknown,
{
    results_are_told_by_their_texts(u.result, u.result);
}

/// The rest of what is reported is what the unit holds. A time before the epoch
/// is not shown, and a unit without a main process has the process 0.
pub proof fn reports_tell_what_the_unit_holds(n: Text, u: Unit, enabled: Text)
    ensures
        unit_status(u, enabled).name == u.name@,
        unit_status(u, enabled).enabled == enabled,
        unit_status(u, enabled).main_pid == u.main_pid,
        unit_status(u, enabled).log == u.log@,
        u.path is None ==> unit_status(u, enabled).path is None,
        u.path is Some ==> unit_status(u, enabled).path == Some(u.path->0@),
        u.active_enter is None ==> unit_status(u, enabled).active_enter is None,
        u.active_enter is Some && u.active_enter->0 >= 0 ==> unit_status(u, enabled).active_enter
            == Some(u.active_enter->0 as u64),
        u.active_enter is Some && u.active_enter->0 < 0 ==> unit_status(u, enabled).active_enter
            is None,
        u.file is Some ==> unit_status(u, enabled).description == u.file->0.unit.description@,
        u.file is None ==> unit_status(u, enabled).description.len() == 0,
        unit_summary(n, u).unit == n,
        unit_summary(n, u).description == unit_status(u, enabled).description,
        property(n, u, enabled, "Id"@) == Some(Json::Str(n)),
        property(n, u, enabled, "Description"@) == Some(
            Json::Str(unit_status(u, enabled).description),
        ),
        property(n, u, enabled, "UnitFileState"@) == Some(Json::Str(enabled)),
        u.main_pid is None ==> property(n, u, enabled, "MainPID"@) == Some(Json::Int(0)),
        u.main_pid is Some ==> property(n, u, enabled, "MainPID"@) == Some(
            Json::Int(u.main_pid->0 as int),
        ),
        unit_status(u, enabled).active_enter is None ==> property(
            n,
            u,
            enabled,
            "ActiveEnterTimestamp"@,
        ) == Some(Json::Str(seq![])),
        unit_status(u, enabled).active_enter is Some ==> property(
            n,
            u,
            enabled,
            "ActiveEnterTimestamp"@,
        ) == Some(Json::Str(decimal(unit_status(u, enabled).active_enter->0 as nat))),
{
    property_names();
}

/// `show` has all the properties of a unit where none are named, and of those
/// that are named exactly the ones that there are.
pub proof fn shown_properties_are_those_asked_for(
    n: Text,
    u: Unit,
    state: Text,
    props: Seq<Text>,
    k: Text,
)
    ensures
        properties(n, u, state, props).contains_key(k) ==> property(n, u, state, k) == Some(
            properties(n, u, state, props)[k],
        ),
        props.len() > 0 ==> (properties(n, u, state, props).contains_key(k) <==> props.contains(k)
            && properties(n, u, state, seq![]).contains_key(k)),
        properties(n, u, state, seq![]).contains_key(k) <==> (k == "Id"@ || k == "LoadState"@ || k == "ActiveState"@ || k == "SubState"@ || k == "MainPID"@ || k == "Description"@ || k == "UnitFileState"@ || k == "ActiveEnterTimestamp"@),
{
    property_names();
}

// ---- lists ----------------------------------------------------------------------

/// Without filters every loaded unit is listed, and no other one.
pub proof fn loaded_units_are_listed(n: Text, u: Unit)
    ensures
        listed_unit(n, u, seq![], None, None) <==> u.load == LoadState::Loaded,
{
}

/// Each filter of `list-units` takes away exactly what it is about: the types that
/// are not named, the units in another state, and those that have the pattern
/// neither in the name nor in the description.
pub proof fn filters_take_away_what_they_are_about(
    n: Text,
    u: Unit,
    types: Seq<Text>,
    t: Text,
    state: Option<Text>,
    s: Text,
    pattern: Option<Text>,
    p: Text,
)
    ensures
        listed_unit(n, u, seq![t], state, pattern) <==> listed_unit(n, u, seq![], state, pattern)
            && ends(n, "."@ + t),
        types.len() > 0 ==> (listed_unit(n, u, types.push(t), state, pattern) <==> listed_unit(
            n,
            u,
            types,
            state,
            pattern,
        ) || listed_unit(n, u, seq![t], state, pattern)),
        listed_unit(n, u, types, Some(s), pattern) <==> listed_unit(n, u, types, None, pattern)
            && unit_summary(n, u).active == s,
        listed_unit(n, u, types, state, Some(p)) <==> listed_unit(n, u, types, state, None) && (
        within(n, p) || (u.file is Some && within(u.file->0.unit.description@, p))),
{
    reveal_strlit(".");
    assert("."@ =~= seq!['.']);
    let one = seq![t];
    if ends(n, "."@ + t) {
        assert(ends(n, seq!['.'] + one[0]));
    }
    if listed_unit(n, u, one, state, pattern) {
        let i = choose|i: int| 0 <= i < one.len() && ends(n, seq!['.'] + #[trigger] one[i]);
        assert(one[i] == t);
    }
    let more = types.push(t);
    assert(more[types.len() as int] == t);
    if exists|i: int| 0 <= i < types.len() && ends(n, seq!['.'] + #[trigger] types[i]) {
        let i = choose|i: int| 0 <= i < types.len() && ends(n, seq!['.'] + #[trigger] types[i]);
        assert(more[i] == types[i]);
    }
    if exists|i: int| 0 <= i < more.len() && ends(n, seq!['.'] + #[trigger] more[i]) {
        let i = choose|i: int| 0 <= i < more.len() && ends(n, seq!['.'] + #[trigger] more[i]);
        if i < types.len() {
            assert(more[i] == types[i]);
        }
    }
}

/// The rows of `list-units` are those of the units that pass the filters.
pub proof fn rows_are_those_that_pass(
    units: Map<Text, Unit>,
    names: Seq<Text>,
    types: Seq<Text>,
    state: Option<Text>,
    pattern: Option<Text>,
    row: crate::control::Summary,
)
    ensures
        summaries(units, names, types, state, pattern).contains(row) <==> exists|i: int|
            0 <= i < names.len() && listed_unit(
                #[trigger] names[i],
                units[names[i]],
                types,
                state,
                pattern,
            ) && row == unit_summary(names[i], units[names[i]]),
        summaries(units, names, types, state, pattern).len() <= names.len(),
    decreases names.len(),
{
    let rows = summaries(units, names, types, state, pattern);
    if names.len() > 0 {
        let init = names.drop_last();
        let k = names.len() - 1;
        let n = names[k];
        rows_are_those_that_pass(units, init, types, state, pattern, row);
        let a = summaries(units, init, types, state, pattern);
        if a.contains(row) {
            let i = choose|i: int|
                0 <= i < init.len() && listed_unit(
                    #[trigger] init[i],
                    units[init[i]],
                    types,
                    state,
                    pattern,
                ) && row == unit_summary(init[i], units[init[i]]);
            assert(names[i] == init[i]);
            let j = a.index_of(row);
            assert(rows[j] == row);
        }
        if listed_unit(n, units[n], types, state, pattern) && row == unit_summary(n, units[n]) {
            assert(rows[a.len() as int] == row);
        }
        if rows.contains(row) && !a.contains(row) {
            let j = rows.index_of(row);
            if j < a.len() {
                assert(a[j] == row);
            }
            assert(names[k] == n);
        }
        if exists|i: int|
            0 <= i < names.len() && listed_unit(
                #[trigger] names[i],
                units[names[i]],
                types,
                state,
                pattern,
            ) && row == unit_summary(names[i], units[names[i]]) {
            let i = choose|i: int|
                0 <= i < names.len() && listed_unit(
                    #[trigger] names[i],
                    units[names[i]],
                    types,
                    state,
                    pattern,
                ) && row == unit_summary(names[i], units[names[i]]);
            if i < k {
                assert(init[i] == names[i]);
            }
        }
    }
}

/// A timer is listed where it is loaded and scheduled. The time left and the time
/// passed lead from now to the trigger: forwards to the next one, backwards to the
/// last one.
pub proof fn timer_rows_tell_the_times(n: Text, u: Unit, now: u64, next: i64, last: i64)
    requires
        u.timer is Some,
        u.timer->0.next_display == Some(next),
        u.timer->0.last_trigger == Some(last),
        0 <= next,
        0 <= last,
        now <= i64::MAX,
    ensures
        timer_info(n, u, now).unit == n,
        timer_info(n, u, now).next == Some(next as u64),
        timer_info(n, u, now).last == Some(last as u64),
        next >= now ==> now + timer_info(n, u, now).next_left->0 == next,
        next < now ==> timer_info(n, u, now).next_left == Some(0i64),
        last <= now ==> last + timer_info(n, u, now).last_passed->0 == now,
        last > now ==> timer_info(n, u, now).last_passed == Some(0i64),
        listed_timer(u) <==> u.kind == UnitKind::Timer && u.load == LoadState::Loaded,
{
}

/// A timer without a next or a last trigger shows none.
pub proof fn missing_times_are_not_shown(n: Text, u: Unit, now: u64)
    ensures
        u.timer is Some && u.timer->0.next_display is None ==> timer_info(n, u, now).next is None
            && timer_info(n, u, now).next_left is None,
        u.timer is Some && u.timer->0.last_trigger is None ==> timer_info(n, u, now).last is None
            && timer_info(n, u, now).last_passed is None,
        u.timer is None ==> !listed_timer(u),
{
}

/// A timer activates the unit that `Unit=` names, and the service of its own name
/// where there is none.
pub proof fn timers_activate_their_units(n: Text, u: Unit, now: u64, stem: Text)
    requires
        u.file is Some,
        u.file->0.timer is Some,
    ensures
        u.file->0.timer->0.unit is Some ==> timer_info(n, u, now).activates
            == u.file->0.timer->0.unit->0@,
        u.file->0.timer->0.unit is None && u.name@ == stem + ".timer"@ ==> timer_info(
            n,
            u,
            now,
        ).activates == stem + ".service"@,
{
    if u.name@ == stem + ".timer"@ {
        stem_is_before_the_last_point(stem, ".timer"@);
    }
}

proof fn stem_is_before_the_last_point(stem: Text, suffix: Text)
    requires
        suffix == ".timer"@ || suffix == ".socket"@,
    ensures
        activated(stem + suffix, None) == stem + ".service"@,
{
    reveal_strlit(".timer");
    reveal_strlit(".socket");
    assert(".timer"@ =~= seq!['.', 't', 'i', 'm', 'e', 'r']);
    assert(".socket"@ =~= seq!['.', 's', 'o', 'c', 'k', 'e', 't']);
    let all = stem + suffix;
    let k: int = (stem.len() + 1) as int;
    assert forall|i: int| k <= i < all.len() implies !chr('.')(#[trigger] all[i]) by {
        assert(all[i] == suffix[i - stem.len()]);
    }
    assert(all[k - 1] == suffix[0]);
    find_last_unique(all, chr('.'), k);
    assert(all.take(k - 1) =~= stem);
}

/// A socket activates the service that `Service=` names, and the one of its own
/// name where there is none.
pub proof fn sockets_activate_their_services(stem: Text, named: Text)
    ensures
        activated(stem + ".socket"@, None) == stem + ".service"@,
        activated(stem + ".socket"@, Some(named)) == named,
{
    stem_is_before_the_last_point(stem, ".socket"@);
}

/// `list-unit-files` lists the files of services, timers, targets and sockets, and
/// no directories.
pub proof fn unit_files_are_listed_by_suffix(f: ListedFile)
    ensures
        !f.is_file ==> !is_unit_file(f),
        f.is_file ==> (is_unit_file(f) <==> (ends(f.file@, ".service"@) || ends(
            f.file@,
            ".timer"@,
        ) || ends(f.file@, ".target"@) || ends(f.file@, ".socket"@))),
        file_infos(seq![f]) == if is_unit_file(f) {
            seq![crate::control::FileInfo { file: f.file@, path: f.path@, state: f.state@ }]
        } else {
            seq![]
        },
{
    assert(seq![f].drop_last() =~= seq![]);
    assert(file_infos(seq![]) =~= seq![]);
    assert(file_infos(seq![f]) =~= if is_unit_file(f) {
        seq![crate::control::FileInfo { file: f.file@, path: f.path@, state: f.state@ }]
    } else {
        seq![]
    });
}

/// What is listed of two directories is what is listed of the one and of the
/// other.
pub proof fn unit_files_are_listed_one_by_one(v: Seq<ListedFile>, f: ListedFile)
    ensures
        file_infos(v.push(f)) == file_infos(v) + file_infos(seq![f]),
{
    unit_files_are_listed_by_suffix(f);
    assert(v.push(f).drop_last() =~= v);
    assert(file_infos(v.push(f)) =~= file_infos(v) + file_infos(seq![f]));
}

/// `show` has an object for each name that is a unit's, in the order of the names.
pub proof fn units_are_shown_one_by_one(
    units: Map<Text, Unit>,
    names: Seq<Text>,
    n: Text,
    props: Seq<Text>,
    states: Map<Text, String>,
)
    ensures
        shown_units(units, seq![], props, states).len() == 0,
        !units.contains_key(n) ==> shown_units(units, names.push(n), props, states)
            == shown_units(units, names, props, states),
        units.contains_key(n) && states.contains_key(n) ==> shown_units(
            units,
            names.push(n),
            props,
            states,
        ) == shown_units(units, names, props, states).push(
            Json::Obj(properties(n, units[n], states[n]@, props)),
        ),
        units.contains_key(n) && !states.contains_key(n) ==> shown_units(
            units,
            names.push(n),
            props,
            states,
        ) == shown_units(units, names, props, states).push(
            Json::Obj(properties(n, units[n], seq![], props)),
        ),
{
    assert(names.push(n).drop_last() =~= names);
}

// ---- operations -----------------------------------------------------------------

/// `try-restart` restarts what runs or is about to, leaves alone what is stopped,
/// and starts any other unit, also one that is not known.
pub proof fn try_restart_goes_by_the_state(units: Map<Text, Unit>, n: Text)
    ensures
        try_restart_of(units, n) == Some(Lifecycle::Restart) <==> units.contains_key(n) && (
        units[n].active == ActiveState::Active || units[n].active == ActiveState::Activating),
        try_restart_of(units, n) is None <==> units.contains_key(n) && units[n].active
            == ActiveState::Inactive,
        try_restart_of(units, n) == Some(Lifecycle::Start) <==> !units.contains_key(n)
            || units[n].active == ActiveState::Failed || units[n].active
            == ActiveState::Deactivating,
{
}

/// What a unit lists as required is not stopped when the unit is isolated, nor is
/// the unit; a unit that runs and is required by nothing is.
pub proof fn isolating_keeps_what_is_required(
    units: Map<Text, Unit>,
    names: Seq<Text>,
    name: Text,
    b: Text,
)
    requires
        are_sorted_keys(units, names),
    ensures
        !isolate_stops(units, names, name).contains(name),
        lists_requires(units, name, b) ==> !isolate_stops(units, names, name).contains(b),
        units.contains_key(b) && units[b].active == ActiveState::Inactive ==> !isolate_stops(
            units,
            names,
            name,
        ).contains(b),
        units.contains_key(b) && units[b].active != ActiveState::Inactive && b != name && (forall|
            a: Text,
        |
            a != b ==> !#[trigger] lists_requires(units, a, b)) ==> isolate_stops(
            units,
            names,
            name,
        ).contains(b),
{
    isolating_stops_what_is_not_required(units, names, name, name);
    isolating_stops_what_is_not_required(units, names, name, b);
    if lists_requires(units, name, b) && b != name {
        requiring_is_listing(units, name, b);
        let p = seq![name, b];
        assert(is_path(units, Edge::Requires, p)) by {
            assert forall|i: int| 0 <= i < p.len() - 1 implies depends(
                units,
                Edge::Requires,
                #[trigger] p[i],
                p[i + 1],
            ) by {
                assert(i == 0);
            }
        }
        assert(reaches(units, Edge::Requires, name, b)) by {
            assert(p[0] == name && p.last() == b);
        }
    }
    if reaches(units, Edge::Requires, name, b) && b != name && forall|a: Text|
        a != b ==> !#[trigger] lists_requires(units, a, b) {
        let p = choose|p: Seq<Text>|
            #[trigger] is_path(units, Edge::Requires, p) && p[0] == name && p.last() == b;
        let k = p.len() - 2;
        assert(depends(units, Edge::Requires, p[k], p[k + 1]));
        requiring_is_listing(units, p[k], b);
        assert(lists_requires(units, p[k], b));
    }
}

/// A unit that failed is as a unit that was never started once it is reset; any
/// other one is left alone.
pub proof fn resetting_is_for_failed_units(u: Unit)
    ensures
        u.active != ActiveState::Failed ==> reset(u) == u,
        u.active == ActiveState::Failed ==> reset(u).active == ActiveState::Inactive
            && reset(u).sub == SubState::Dead && reset(u).result == UnitResult::Success,
        reset(u) == (Unit {
            active: reset(u).active,
            sub: reset(u).sub,
            result: reset(u).result,
            ..u
        }),
        reset(reset(u)) == reset(u),
{
}

/// `list-dependencies` lists the full names of what a unit's `Requires=` and
/// `Wants=` list, and of what stands in its directories.
pub proof fn dependencies_are_what_is_listed(
    units: Map<Text, Unit>,
    dirs: Map<Text, Vec<String>>,
    n: Text,
    s: Seq<Text>,
    i: int,
)
    requires
        is_dependency_list(units, dirs, n, false, s),
    ensures
        units.contains_key(n) && units[n].file is Some && 0 <= i
            < units[n].file->0.unit.requires@.len() ==> s.contains(
            normalized(units[n].file->0.unit.requires@[i]@),
        ),
        units.contains_key(n) && units[n].file is Some && 0 <= i
            < units[n].file->0.unit.wants@.len() ==> s.contains(
            normalized(units[n].file->0.unit.wants@[i]@),
        ),
        dirs.contains_key(n) && 0 <= i < dirs[n]@.len() ==> s.contains(
            normalized(dirs[n]@[i]@),
        ),
        !dirs.contains_key(n) && (!units.contains_key(n) || units[n].file is None || (
        units[n].file->0.unit.requires@.len() == 0 && units[n].file->0.unit.wants@.len() == 0))
            ==> s.len() == 0,
{
    let u = units[n].file->0.unit;
    if units.contains_key(n) && units[n].file is Some && 0 <= i < u.requires@.len() {
        assert(dependency_of(units, dirs, n, normalized(u.requires@[i]@)));
    }
    if units.contains_key(n) && units[n].file is Some && 0 <= i < u.wants@.len() {
        assert(dependency_of(units, dirs, n, normalized(u.wants@[i]@)));
    }
    if dirs.contains_key(n) && 0 <= i < dirs[n]@.len() {
        assert(dependency_of(units, dirs, n, normalized(dirs[n]@[i]@)));
    }
    if s.len() > 0 {
        assert(s.contains(s[0]));
        assert(dependency_of(units, dirs, n, s[0]));
    }
}

/// The segments of a unit's journal are the file of its name and those with a
/// point and anything behind it; the files of a unit whose name merely begins
/// alike are not.
pub proof fn segments_are_named_after_the_unit(unit: Text, rest: Text, file: Text)
    ensures
        is_segment_of(unit, unit),
        is_segment_of(unit + "."@ + rest, unit),
        rest.len() > 0 && rest[0] != '.' ==> !is_segment_of(unit + rest, unit),
        is_segment_of(file, unit) && file != unit ==> exists|r: Text|
            file == #[trigger] (unit + "."@ + r),
{
    reveal_strlit(".");
    assert("."@ =~= seq!['.']);
    let a = unit + "."@ + rest;
    assert(a.take(unit.len() as int) =~= unit);
    assert(a[unit.len() as int] == '.');
    if rest.len() > 0 {
        assert((unit + rest)[unit.len() as int] == rest[0]);
    }
    if is_segment_of(file, unit) && file != unit {
        let r = file.skip((unit.len() + 1) as int);
        assert(file =~= unit + "."@ + r);
    }
}

/// Cleaning says which unit was cleaned, and whether there was anything to clean.
pub proof fn cleaning_says_what_was_done(unit: Text)
    ensures
        clean_text(unit, true) == "Cleaned runtime state of "@ + unit + "."@,
        clean_text(unit, false) == "Clean "@ + unit + ": nothing to clean."@,
{
}

/// `cat` shows the text as it stands in the file, under the path that the unit was
/// loaded from; a unit without a file has no text.
pub proof fn cat_shows_the_text_that_was_read(
    units: Map<Text, Unit>,
    n: Text,
    file: Result<ReadFile, String>,
)
    ensures
        !units.contains_key(n) ==> cat_entry(units, n, file) is Err,
        cat_entry(units, n, file) is Ok ==> {
            let c = cat_entry(units, n, file)->Ok_0;
            &&& c.unit == n
            &&& units[n].path is Some ==> file is Ok && c.text == file->Ok_0.text@ && c.path
                == units[n].path->0@
            &&& units[n].path is None ==> c.text.len() == 0 && c.path == "(synthesized)"@
        },
        units.contains_key(n) && units[n].path is None ==> cat_entry(units, n, file) is Ok,
        units.contains_key(n) && units[n].path is Some && file is Err ==> cat_entry(
            units,
            n,
            file,
        ) == Err::<crate::control::Cat, Text>(file->Err_0@),
{
}

/// The rows of `list-timers` are those of the timers that are listed, in order.
pub proof fn timer_rows_are_told_one_by_one(
    units: Map<Text, Unit>,
    names: Seq<Text>,
    n: Text,
    now: u64,
)
    ensures
        timer_infos(units, seq![], now).len() == 0,
        listed_timer(units[n]) ==> timer_infos(units, names.push(n), now) == timer_infos(
            units,
            names,
            now,
        ).push(timer_info(n, units[n], now)),
        !listed_timer(units[n]) ==> timer_infos(units, names.push(n), now) == timer_infos(
            units,
            names,
            now,
        ),
{
    assert(names.push(n).drop_last() =~= names);
}

/// The expressions of a timer's row are those of its `OnCalendar=`.
pub proof fn timer_rows_show_the_expressions(n: Text, u: Unit, now: u64, i: int)
    requires
        u.file is Some,
        u.file->0.timer is Some,
    ensures
        timer_info(n, u, now).spec_strings.len() == u.file->0.timer->0.on_calendar@.len(),
        0 <= i < u.file->0.timer->0.on_calendar@.len() ==> timer_info(n, u, now).spec_strings[i]
            == u.file->0.timer->0.on_calendar@[i].text@,
{
}

/// The files of `cat` are shown one behind the other, up to the first that fails.
pub proof fn files_are_shown_one_by_one(
    units: Map<Text, Unit>,
    names: Seq<Text>,
    files: Seq<Result<ReadFile, String>>,
    n: Text,
)
    requires
        files.len() == names.len() + 1,
        cat_entries(units, names, files) is Ok,
    ensures
        cat_entry(units, n, files[names.len() as int]) is Ok ==> cat_entries(
            units,
            names.push(n),
            files,
        ) == Ok::<Seq<crate::control::Cat>, Text>(
            cat_entries(units, names, files)->Ok_0.push(
                cat_entry(units, n, files[names.len() as int])->Ok_0,
            ),
        ),
        cat_entry(units, n, files[names.len() as int]) is Err ==> cat_entries(
            units,
            names.push(n),
            files,
        ) == Err::<Seq<crate::control::Cat>, Text>(
            cat_entry(units, n, files[names.len() as int])->Err_0,
        ),
{
    assert(names.push(n).drop_last() =~= names);
}

} // verus!
