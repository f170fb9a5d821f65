//! Which unit files are accepted.
//!
//! A file is refused for what one of its settings holds and for nothing else: the laws
//! here say, part by part, that a file whose settings are readable is accepted.

use vstd::prelude::*;

use crate::repo::domain::Document;
use crate::specifier::Specifiers;
use crate::text::{lower, number, signed32, trimmed, words, Text};
use crate::timespan::span_of;
use crate::unit::config::{
    assignment_item, bool_setting, calendar_item, cgroup_part, command_item, command_part,
    cpu_weight_of, description_of, file_item, file_kind, file_of, gathered, kill_mode_of,
    kill_part, kill_signal_of, kind_of_name, kind_part, limit_item, mount_of, nice_of, restart_of,
    restart_part, rlimit_part, service_of, service_type_of, setting, settings, size_setting,
    socket_of, span_item, span_setting, stdin_of, stdio_setting, stream_part, success_of,
    surrounding_part, tasks_max_of, timer_of, umask_of, unit_of, unquoted_setting, where_of,
    FileSettings, UnitKind,
};
use crate::unit::laws::{final_value, is_set};
use crate::unit::parse::{unquoted, values};
use crate::unit::values::{bool_of, bytes_of, exit_statuses, octal_of, signal_of, RlimitResource};

verus! {

/// The part of a service on what it is: each of its settings has to be readable, and nothing else is asked.
pub proof fn kinds_are_accepted(d: Document, c: Specifiers)
    ensures
        kind_part(d, c) is Ok <==> (service_type_of(setting(d, c, "Service"@, "Type"@)) is Ok && unquoted_setting(setting(d, c, "Service"@, "BusName"@)) is Ok && bool_setting(setting(d, c, "Service"@, "RemainAfterExit"@), false) is Ok),
{
}

/// So it is with its commands.
pub proof fn commands_are_accepted(d: Document, c: Specifiers)
    ensures
        command_part(d, c) is Ok <==> (gathered(settings(d, c, "Service"@, "ExecStartPre"@), command_item()) is Ok && gathered(settings(d, c, "Service"@, "ExecStart"@), command_item()) is Ok && gathered(settings(d, c, "Service"@, "ExecStartPost"@), command_item()) is Ok && gathered(settings(d, c, "Service"@, "ExecStop"@), command_item()) is Ok && gathered(settings(d, c, "Service"@, "ExecReload"@), command_item()) is Ok),
{
}

/// With its restarts and times.
pub proof fn restarts_are_accepted(d: Document, c: Specifiers)
    ensures
        restart_part(d, c) is Ok <==> (restart_of(setting(d, c, "Service"@, "Restart"@)) is Ok && span_setting(setting(d, c, "Service"@, "RestartSec"@), 100_000) is Ok && span_setting(setting(d, c, "Service"@, "TimeoutStartSec"@), 90_000_000) is Ok && span_setting(setting(d, c, "Service"@, "TimeoutStopSec"@), 90_000_000) is Ok),
{
}

/// With what it runs with.
pub proof fn surroundings_are_accepted(d: Document, c: Specifiers)
    ensures
        surrounding_part(d, c) is Ok <==> (gathered(settings(d, c, "Service"@, "Environment"@), assignment_item()) is Ok && gathered(settings(d, c, "Service"@, "EnvironmentFile"@), file_item()) is Ok && nice_of(d, c) is Ok && umask_of(setting(d, c, "Service"@, "UMask"@)) is Ok),
{
}

/// With how it ends.
pub proof fn endings_are_accepted(d: Document, c: Specifiers)
    ensures
        kill_part(d, c) is Ok <==> (kill_signal_of(d, c) is Ok && kill_mode_of(setting(d, c, "Service"@, "KillMode"@)) is Ok && bool_setting(setting(d, c, "Service"@, "SendSIGKILL"@), true) is Ok && success_of(setting(d, c, "Service"@, "SuccessExitStatus"@)) is Ok && unquoted_setting(setting(d, c, "Service"@, "PIDFile"@)) is Ok),
{
}

/// With its limits.
pub proof fn limits_are_accepted(d: Document, c: Specifiers)
    ensures
        rlimit_part(d, c) is Ok <==> (gathered(settings(d, c, "Service"@, "LimitNOFILE"@), limit_item(RlimitResource::NoFile)) is Ok && gathered(settings(d, c, "Service"@, "LimitNPROC"@), limit_item(RlimitResource::NProc)) is Ok && gathered(settings(d, c, "Service"@, "LimitCORE"@), limit_item(RlimitResource::Core)) is Ok && gathered(settings(d, c, "Service"@, "LimitAS"@), limit_item(RlimitResource::AddressSpace)) is Ok),
{
}

/// With the limits of its group.
pub proof fn group_limits_are_accepted(d: Document, c: Specifiers)
    ensures
        cgroup_part(d, c) is Ok <==> (size_setting(setting(d, c, "Service"@, "MemoryMax"@)) is Ok && size_setting(setting(d, c, "Service"@, "MemoryHigh"@)) is Ok && cpu_weight_of(d, c) is Ok && tasks_max_of(d, c) is Ok),
{
}

/// With its streams.
pub proof fn streams_are_accepted(d: Document, c: Specifiers)
    ensures
        stream_part(d, c) is Ok <==> (stdio_setting(setting(d, c, "Service"@, "StandardOutput"@)) is Ok && stdio_setting(setting(d, c, "Service"@, "StandardError"@)) is Ok && stdin_of(setting(d, c, "Service"@, "StandardInput"@)) is Ok),
{
}

/// A service is accepted where all these parts are.
pub proof fn services_are_accepted(d: Document, c: Specifiers)
    ensures
        service_of(d, c) is Ok <==> (kind_part(d, c) is Ok && command_part(d, c) is Ok && restart_part(d, c) is Ok && surrounding_part(d, c) is Ok && kill_part(d, c) is Ok && rlimit_part(d, c) is Ok && cgroup_part(d, c) is Ok && stream_part(d, c) is Ok),
{
}

/// A timer is accepted where its settings are readable.
pub proof fn timers_are_accepted(d: Document, c: Specifiers)
    ensures
        timer_of(d, c) is Ok <==> (gathered(settings(d, c, "Timer"@, "OnCalendar"@), calendar_item()) is Ok && gathered(settings(d, c, "Timer"@, "OnBootSec"@), span_item()) is Ok && gathered(settings(d, c, "Timer"@, "OnStartupSec"@), span_item()) is Ok && gathered(settings(d, c, "Timer"@, "OnUnitActiveSec"@), span_item()) is Ok && gathered(settings(d, c, "Timer"@, "OnUnitInactiveSec"@), span_item()) is Ok && bool_setting(setting(d, c, "Timer"@, "Persistent"@), false) is Ok && span_setting(setting(d, c, "Timer"@, "AccuracySec"@), 60_000_000) is Ok && span_setting(setting(d, c, "Timer"@, "RandomizedDelaySec"@), 0) is Ok && bool_setting(setting(d, c, "Timer"@, "RemainAfterElapse"@), false) is Ok),
{
}

/// `[Unit]` is accepted where the description and the switch are readable.
pub proof fn unit_sections_are_accepted(d: Document, c: Specifiers)
    ensures
        unit_of(d, c) is Ok <==> (description_of(setting(d, c, "Unit"@, "Description"@)) is Ok && bool_setting(setting(d, c, "Unit"@, "DefaultDependencies"@), true) is Ok),
{
}

/// A file is accepted where `[Unit]` is, its name has a suffix that is known, and the
/// section of its kind is accepted; targets and devices have none.
pub proof fn files_are_accepted(d: Document, c: Specifiers)
    ensures
        file_of(d, c) is Ok <==> (unit_of(d, c) is Ok && match kind_of_name(c.unit_name) {
            None => false,
            Some(UnitKind::Service) => service_of(d, c) is Ok,
            Some(UnitKind::Timer) => timer_of(d, c) is Ok,
            Some(UnitKind::Socket) => socket_of(d, c) is Ok,
            Some(UnitKind::Mount) => mount_of(d, c) is Ok,
            Some(UnitKind::Target) => true,
            Some(UnitKind::Device) => true,
        }),
{
}

/// The kind of a unit is that of the section it has; one without is a target.
pub proof fn sections_tell_the_kind(f: FileSettings)
    ensures
        f.service is Some ==> file_kind(f) == UnitKind::Service,
        f.service is None && f.timer is Some ==> file_kind(f) == UnitKind::Timer,
        f.service is None && f.timer is None && f.socket is Some ==> file_kind(f)
            == UnitKind::Socket,
        f.service is None && f.timer is None && f.socket is None && f.mount is Some ==> file_kind(f)
            == UnitKind::Mount,
        f.service is None && f.timer is None && f.socket is None && f.mount is None ==> file_kind(f)
            == UnitKind::Target,
{
}

/// A setting that is not there is readable; one that is there is what its last value is.
pub proof fn settings_are_the_last_values(d: Document, c: Specifiers, section: Text, key: Text)
    ensures
        !is_set(d, section, key) ==> setting(d, c, section, key) is None,
        is_set(d, section, key) ==> setting(d, c, section, key) == Some(
            final_value(d, c, section, key),
        ),
{
}

/// A switch is readable where it is a boolean, and has its default where it is not set;
/// so it is with times, sizes and texts.
pub proof fn readable_settings_are_accepted(v: Text, b: bool, n: nat)
    ensures
        bool_setting(None, b) == Ok::<bool, Text>(b),
        bool_setting(Some(v), b) == bool_of(v),
        span_setting(None, n) == Ok::<nat, Text>(n),
        span_setting(Some(v), n) == span_of(v),
        size_setting(None) == Ok::<Option<u64>, Text>(None),
        size_setting(Some(v)) is Ok <==> bytes_of(v) is Ok,
        bytes_of(v) is Ok ==> size_setting(Some(v)) == Ok::<Option<u64>, Text>(
            Some(bytes_of(v)->Ok_0),
        ),
        unquoted_setting(None) == Ok::<Option<Text>, Text>(None),
        unquoted_setting(Some(v)) is Ok <==> unquoted(v) is Ok,
        umask_of(None) == Ok::<Option<u32>, Text>(None),
        umask_of(Some(v)) is Ok <==> octal_of(v) is Ok,
        success_of(Some(v)) is Ok <==> exit_statuses(v) is Ok,
        description_of(None) == Ok::<Text, Text>(seq![]),
        description_of(Some(v)) == unquoted(v),
{
}

/// Numbers that are in range are accepted, and no others: a weight from 1 to 10000, a
/// nice value of 32 bits, any number of tasks, and a signal that there is.
pub proof fn numbers_in_range_are_accepted(d: Document, c: Specifiers)
    ensures
        cpu_weight_of(d, c) is Ok <==> !is_set(d, "Service"@, "CPUWeight"@) || ({
            let n = number(
                trimmed(final_value(d, c, "Service"@, "CPUWeight"@)),
                10,
                0xffff_ffff,
            );
            n is Some && 1 <= n->0 <= 10_000
        }),
        nice_of(d, c) is Ok <==> !is_set(d, "Service"@, "Nice"@) || signed32(
            final_value(d, c, "Service"@, "Nice"@),
        ) is Some,
        tasks_max_of(d, c) is Ok <==> !is_set(d, "Service"@, "TasksMax"@) || lower(
            trimmed(final_value(d, c, "Service"@, "TasksMax"@)),
        ) == lower("infinity"@) || number(
            trimmed(final_value(d, c, "Service"@, "TasksMax"@)),
            10,
            0xffff_ffff_ffff_ffff,
        ) is Some,
        kill_signal_of(d, c) is Ok <==> !is_set(d, "Service"@, "KillSignal"@) || ({
            let w = words(final_value(d, c, "Service"@, "KillSignal"@));
            w.len() > 0 && signal_of(w[0]) is Some
        }),
        where_of(d, c) is Ok <==> !is_set(d, "Mount"@, "Where"@) || unquoted(
            final_value(d, c, "Mount"@, "Where"@),
        ) is Ok,
{
}

/// Sockets and mounts are accepted where the one setting that can be wrong is readable.
pub proof fn sockets_and_mounts_are_accepted(d: Document, c: Specifiers)
    ensures
        socket_of(d, c) is Ok <==> bool_setting(setting(d, c, "Socket"@, "Accept"@), false) is Ok,
        mount_of(d, c) is Ok <==> where_of(d, c) is Ok,
{
}

} // verus!
