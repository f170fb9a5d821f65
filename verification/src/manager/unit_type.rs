//! What starting and stopping means for each type of unit.
//!
//! A service is the only type that runs processes; targets, timers, sockets and
//! devices are markers or triggers with no process of their own. A unit type
//! updates the unit and says what the manager has to do next.

use vstd::prelude::*;

use crate::manager::state::{
    entered, ActiveState, ControlCommand, SubState, Unit, UnitResult,
};
use crate::platform::signal::{Signal, SIGTERM};

verus! {

/// What the manager does next for a unit.
#[derive(Debug, Clone, Copy, PartialEq, Eq)]
pub enum Step {
    /// Run the command of that index among those of a kind.
    SpawnControl(ControlCommand, usize),
    /// The start is done.
    CompleteStartJob,
    /// The stop is done.
    FinalizeStop,
    /// Send the signal to all of the unit's processes, and stop waiting for
    /// them after a time.
    Terminate(Signal),
    /// Bind the unit's listening sockets.
    StartSocket,
    /// Close the unit's listening sockets.
    StopSocket,
}

/// A step, as specifications see it.
pub ghost enum Next {
    SpawnControl(ControlCommand, nat),
    CompleteStartJob,
    FinalizeStop,
    Terminate(int),
    StartSocket,
    StopSocket,
}

impl View for Step {
    type V = Next;

    open spec fn view(&self) -> Next {
        match self {
            Step::SpawnControl(c, i) => Next::SpawnControl(*c, *i as nat),
            Step::CompleteStartJob => Next::CompleteStartJob,
            Step::FinalizeStop => Next::FinalizeStop,
            Step::Terminate(s) => Next::Terminate(s.raw()),
            Step::StartSocket => Next::StartSocket,
            Step::StopSocket => Next::StopSocket,
        }
    }
}

/// How units of one type start and stop.
pub trait UnitType {
    /// A unit that is started, and what comes next.
    spec fn starting(&self, u: Unit, now: i64) -> (Unit, Next);

    /// A unit that is stopped, and what comes next.
    spec fn stopping(&self, u: Unit, has_processes: bool) -> (Unit, Next);

    /// Begin the start of a unit.
    fn start(&self, u: &mut Unit, now: i64) -> (r: Step)
        ensures
            (*final(u), r@) == self.starting(*old(u), now),
    ;

    /// Begin the stop of a unit.
    fn stop(&self, u: &mut Unit, has_processes: bool) -> (r: Step)
        ensures
            (*final(u), r@) == self.stopping(*old(u), has_processes),
    ;
}

/// A `.service`: runs and supervises processes.
#[derive(Debug, Clone, Copy)]
pub struct ServiceUnit;

/// A `.target`: active the instant it is started.
#[derive(Debug, Clone, Copy)]
pub struct TargetUnit;

/// A `.timer`: triggers another unit.
#[derive(Debug, Clone, Copy)]
pub struct TimerUnit;

/// A `.socket`: activates a service on the first connection.
#[derive(Debug, Clone, Copy)]
pub struct SocketUnit;

/// A `.device`: active the instant it exists.
#[derive(Debug, Clone, Copy)]
pub struct DeviceUnit;

/// A service with its processes forgotten, ready to run its first command.
pub open spec fn fresh(u: Unit) -> Unit {
    Unit {
        main_pid: None,
        group_pid: None,
        control_pid: None,
        control_command: None,
        cmd_index: 0,
        forked_main_pid: None,
        result: UnitResult::Success,
        ..u
    }
}

/// Does the service have commands to run before its own?
pub open spec fn has_start_pre(u: Unit) -> bool {
    match u.file {
        Some(f) => match f.service {
            Some(s) => s.exec_start_pre@.len() > 0,
            None => false,
        },
        None => false,
    }
}

/// Does the service have commands that stop it?
pub open spec fn has_exec_stop(u: Unit) -> bool {
    match u.file {
        Some(f) => match f.service {
            Some(s) => s.exec_stop@.len() > 0,
            None => false,
        },
        None => false,
    }
}

/// The signal that stops the service.
pub open spec fn stop_signal(u: Unit) -> int {
    match u.file {
        Some(f) => match f.service {
            Some(s) => match s.kill_signal {
                Some(g) => g.raw(),
                None => SIGTERM as int,
            },
            None => SIGTERM as int,
        },
        None => SIGTERM as int,
    }
}

impl UnitType for ServiceUnit {
    open spec fn starting(&self, u: Unit, now: i64) -> (Unit, Next) {
        (
            entered(
                fresh(u),
                ActiveState::Activating,
                SubState::StartPre,
                UnitResult::Success,
                now,
            ),
            if has_start_pre(u) {
                Next::SpawnControl(ControlCommand::StartPre, 0)
            } else {
                Next::SpawnControl(ControlCommand::Start, 0)
            },
        )
    }

    open spec fn stopping(&self, u: Unit, has_processes: bool) -> (Unit, Next) {
        if has_processes {
            (Unit { sub: SubState::StopSigterm, ..u }, Next::Terminate(stop_signal(u)))
        } else if has_exec_stop(u) {
            (Unit { sub: SubState::Stop, ..u }, Next::SpawnControl(ControlCommand::Stop, 0))
        } else {
            (u, Next::FinalizeStop)
        }
    }

    fn start(&self, u: &mut Unit, now: i64) -> (r: Step) {
        u.main_pid = None;
        u.group_pid = None;
        u.control_pid = None;
        u.control_command = None;
        u.cmd_index = 0;
        u.forked_main_pid = None;
        u.result = UnitResult::Success;
        u.set_active(ActiveState::Activating, SubState::StartPre, UnitResult::Success, now);
        let has_pre = match u.service_cfg() {
            Some(s) => s.exec_start_pre.len() > 0,
            None => false,
        };
        if has_pre {
            Step::SpawnControl(ControlCommand::StartPre, 0)
        } else {
            Step::SpawnControl(ControlCommand::Start, 0)
        }
    }

    fn stop(&self, u: &mut Unit, has_processes: bool) -> (r: Step) {
        let (signal, no_exec_stop) = match u.service_cfg() {
            Some(s) => (
                match s.kill_signal {
                    Some(g) => g,
                    None => Signal::sigterm(),
                },
                s.exec_stop.len() == 0,
            ),
            None => (Signal::sigterm(), true),
        };
        if has_processes {
            u.sub = SubState::StopSigterm;
            Step::Terminate(signal)
        } else if no_exec_stop {
            Step::FinalizeStop
        } else {
            u.sub = SubState::Stop;
            Step::SpawnControl(ControlCommand::Stop, 0)
        }
    }
}

/// A marker that is active at once.
pub open spec fn active_at_once(u: Unit, now: i64) -> (Unit, Next) {
    (
        entered(u, ActiveState::Active, SubState::Dead, UnitResult::Success, now),
        Next::CompleteStartJob,
    )
}

impl UnitType for TargetUnit {
    open spec fn starting(&self, u: Unit, now: i64) -> (Unit, Next) {
        active_at_once(u, now)
    }

    open spec fn stopping(&self, u: Unit, has_processes: bool) -> (Unit, Next) {
        (u, Next::FinalizeStop)
    }

    fn start(&self, u: &mut Unit, now: i64) -> (r: Step) {
        u.set_active(ActiveState::Active, SubState::Dead, UnitResult::Success, now);
        Step::CompleteStartJob
    }

    fn stop(&self, u: &mut Unit, has_processes: bool) -> (r: Step) {
        Step::FinalizeStop
    }
}

impl UnitType for TimerUnit {
    open spec fn starting(&self, u: Unit, now: i64) -> (Unit, Next) {
        active_at_once(u, now)
    }

    open spec fn stopping(&self, u: Unit, has_processes: bool) -> (Unit, Next) {
        (u, Next::FinalizeStop)
    }

    fn start(&self, u: &mut Unit, now: i64) -> (r: Step) {
        u.set_active(ActiveState::Active, SubState::Dead, UnitResult::Success, now);
        Step::CompleteStartJob
    }

    fn stop(&self, u: &mut Unit, has_processes: bool) -> (r: Step) {
        Step::FinalizeStop
    }
}

impl UnitType for SocketUnit {
    open spec fn starting(&self, u: Unit, now: i64) -> (Unit, Next) {
        (u, Next::StartSocket)
    }

    open spec fn stopping(&self, u: Unit, has_processes: bool) -> (Unit, Next) {
        (u, Next::StopSocket)
    }

    fn start(&self, u: &mut Unit, now: i64) -> (r: Step) {
        Step::StartSocket
    }

    fn stop(&self, u: &mut Unit, has_processes: bool) -> (r: Step) {
        Step::StopSocket
    }
}

impl UnitType for DeviceUnit {
    open spec fn starting(&self, u: Unit, now: i64) -> (Unit, Next) {
        active_at_once(u, now)
    }

    open spec fn stopping(&self, u: Unit, has_processes: bool) -> (Unit, Next) {
        (u, Next::FinalizeStop)
    }

    fn start(&self, u: &mut Unit, now: i64) -> (r: Step) {
        u.set_active(ActiveState::Active, SubState::Dead, UnitResult::Success, now);
        Step::CompleteStartJob
    }

    fn stop(&self, u: &mut Unit, has_processes: bool) -> (r: Step) {
        Step::FinalizeStop
    }
}

/// Only a service ever runs a command or is sent a signal.
pub proof fn only_services_have_processes(u: Unit, now: i64, has_processes: bool)
    ensures
        TargetUnit.starting(u, now).1 == Next::CompleteStartJob,
        TargetUnit.stopping(u, has_processes).1 == Next::FinalizeStop,
        TimerUnit.starting(u, now).1 == Next::CompleteStartJob,
        TimerUnit.stopping(u, has_processes).1 == Next::FinalizeStop,
        DeviceUnit.starting(u, now).1 == Next::CompleteStartJob,
        DeviceUnit.stopping(u, has_processes).1 == Next::FinalizeStop,
        SocketUnit.starting(u, now).1 == Next::StartSocket,
        SocketUnit.stopping(u, has_processes).1 == Next::StopSocket,
        TargetUnit.starting(u, now).0.active == ActiveState::Active,
        TimerUnit.starting(u, now).0.active == ActiveState::Active,
        DeviceUnit.starting(u, now).0.active == ActiveState::Active,
        ServiceUnit.starting(u, now).0.active == ActiveState::Activating,
{
}

} // verus!
