//! Unit files interpreted into typed configuration.

use vstd::prelude::*;
use vstd::string::*;

use crate::calendar::{calendar_of, CalendarSpec};
use crate::order::views;
use crate::platform::signal::Signal;
use crate::repo::domain::Document;
use crate::specifier::{specified, SpecifierContext, Specifiers};
use crate::text::{
    cat3, cut, cut_last, lower, number, opt_text, owned, parse_i32, parse_number, rsplit_once,
    same, same_ignore_case, signed32, split_once, split_words, strip_char, texts, to_lower, trim,
    trim_start, trimmed, trimmed_start, words, Text,
};
use crate::timespan::{span_of, span_result, TimeSpan};
use crate::unit::mount_path::{mount_path, mount_path_from_unit_name};
use crate::unit::parse::{tokenize, tokens, unquote_scalar, unquoted, value, values, RawUnitFile};
use crate::unit::values::{
    bool_of, bytes_of, counts, exit_statuses, in_ranges, octal_of, parse_bool, parse_bytes,
    parse_exit_status, parse_octal, parse_rlimit, parse_stdio, plain_result, rlimit_of,
    sig_from_name, signal_of, stdio_of, stdio_result, unsigned_code, CgroupLimits, ExitCodeSet,
    Rlimit, RlimitResource, Statuses, Stdio, StdioTarget,
};

verus! {

/// The kind of a unit: the suffix after the last `.` of its name.
#[derive(Debug, Clone, Copy, PartialEq, Eq, Structural)]
pub enum UnitKind {
    Service,
    Timer,
    Target,
    Socket,
    Device,
    Mount,
}

pub open spec fn kind_suffix(k: UnitKind) -> Text {
    match k {
        UnitKind::Service => "service"@,
        UnitKind::Timer => "timer"@,
        UnitKind::Target => "target"@,
        UnitKind::Socket => "socket"@,
        UnitKind::Device => "device"@,
        UnitKind::Mount => "mount"@,
    }
}

pub open spec fn kind_of_suffix(s: Text) -> Option<UnitKind> {
    if s == "service"@ {
        Some(UnitKind::Service)
    } else if s == "timer"@ {
        Some(UnitKind::Timer)
    } else if s == "target"@ {
        Some(UnitKind::Target)
    } else if s == "socket"@ {
        Some(UnitKind::Socket)
    } else if s == "device"@ {
        Some(UnitKind::Device)
    } else if s == "mount"@ {
        Some(UnitKind::Mount)
    } else {
        None
    }
}

/// The kind that a unit name carries.
pub open spec fn kind_of_name(name: Text) -> Option<UnitKind> {
    match cut_last(name, '.') {
        Some((_, suffix)) => kind_of_suffix(suffix),
        None => None,
    }
}

impl UnitKind {
    pub fn suffix(&self) -> (r: &'static str)
        ensures
            r@ == kind_suffix(*self),
    {
        match self {
            UnitKind::Service => "service",
            UnitKind::Timer => "timer",
            UnitKind::Target => "target",
            UnitKind::Socket => "socket",
            UnitKind::Device => "device",
            UnitKind::Mount => "mount",
        }
    }

    pub fn from_suffix(s: &str) -> (r: Option<UnitKind>)
        ensures
            r == kind_of_suffix(s@),
    {
        if same(s, "service") {
            Some(UnitKind::Service)
        } else if same(s, "timer") {
            Some(UnitKind::Timer)
        } else if same(s, "target") {
            Some(UnitKind::Target)
        } else if same(s, "socket") {
            Some(UnitKind::Socket)
        } else if same(s, "device") {
            Some(UnitKind::Device)
        } else if same(s, "mount") {
            Some(UnitKind::Mount)
        } else {
            None
        }
    }

    pub fn from_unit_name(name: &str) -> (r: Option<UnitKind>)
        ensures
            r == kind_of_name(name@),
    {
        match rsplit_once(name, '.') {
            Some((_, suffix)) => UnitKind::from_suffix(suffix),
            None => None,
        }
    }
}

/// Every kind is found again by its suffix.
pub proof fn kind_round_trip(k: UnitKind)
    ensures
        kind_of_suffix(kind_suffix(k)) == Some(k),
{
    reveal_strlit("service");
    reveal_strlit("timer");
    reveal_strlit("target");
    reveal_strlit("socket");
    reveal_strlit("mount");
    reveal_strlit("device");
    assert("service"@[0] == 's' && "service"@[1] == 'e');
    assert("timer"@[0] == 't' && "timer"@[1] == 'i');
    assert("target"@[0] == 't' && "target"@[1] == 'a');
    assert("socket"@[0] == 's' && "socket"@[1] == 'o');
    assert("mount"@[0] == 'm');
    assert("device"@[0] == 'd');
}

// ---- configuration --------------------------------------------------------------

/// One command line of a service.
#[derive(Debug, Clone)]
pub struct ExecCommand {
    /// The words, specifiers expanded; variables are expanded at exec.
    pub argv: Vec<String>,
    /// A leading `-`: failure is not fatal.
    pub ignore_failure: bool,
}

/// A command line, as specifications see it.
#[verifier::ext_equal]
pub ghost struct CommandLine {
    pub argv: Seq<Text>,
    pub ignore_failure: bool,
}

impl View for ExecCommand {
    type V = CommandLine;

    open spec fn view(&self) -> CommandLine {
        CommandLine { argv: texts(self.argv@), ignore_failure: self.ignore_failure }
    }
}

#[derive(Debug, Clone, Copy, PartialEq, Eq, Default, Structural)]
pub enum ServiceType {
    #[default]
    Simple,
    Exec,
    Oneshot,
    Forking,
    Notify,
    Dbus,
    Idle,
}

#[derive(Debug, Clone, Copy, PartialEq, Eq, Default, Structural)]
pub enum RestartPolicy {
    #[default]
    No,
    OnSuccess,
    OnFailure,
    OnAbnormal,
    OnAbort,
    OnWatchdog,
    Always,
}

#[derive(Debug, Clone, Copy, PartialEq, Eq, Default, Structural)]
pub enum KillMode {
    /// Kill the whole process group.
    #[default]
    ControlGroup,
    /// Kill only the main process.
    Process,
}

/// `[Unit]`: description and dependencies.
#[derive(Debug, Clone)]
pub struct UnitConfig {
    pub description: String,
    pub after: Vec<String>,
    pub before: Vec<String>,
    pub requires: Vec<String>,
    pub requisite: Vec<String>,
    pub wants: Vec<String>,
    pub conflicts: Vec<String>,
    pub on_failure: Vec<String>,
    pub part_of: Vec<String>,
    pub binds_to: Vec<String>,
    pub default_dependencies: bool,
    pub documentation: Vec<String>,
}

/// `[Unit]`, as specifications see it.
#[verifier::ext_equal]
pub ghost struct UnitSettings {
    pub description: Text,
    pub after: Seq<Text>,
    pub before: Seq<Text>,
    pub requires: Seq<Text>,
    pub requisite: Seq<Text>,
    pub wants: Seq<Text>,
    pub conflicts: Seq<Text>,
    pub on_failure: Seq<Text>,
    pub part_of: Seq<Text>,
    pub binds_to: Seq<Text>,
    pub default_dependencies: bool,
    pub documentation: Seq<Text>,
}

impl View for UnitConfig {
    type V = UnitSettings;

    open spec fn view(&self) -> UnitSettings {
        UnitSettings {
            description: self.description@,
            after: texts(self.after@),
            before: texts(self.before@),
            requires: texts(self.requires@),
            requisite: texts(self.requisite@),
            wants: texts(self.wants@),
            conflicts: texts(self.conflicts@),
            on_failure: texts(self.on_failure@),
            part_of: texts(self.part_of@),
            binds_to: texts(self.binds_to@),
            default_dependencies: self.default_dependencies,
            documentation: texts(self.documentation@),
        }
    }
}

impl Default for UnitConfig {
    fn default() -> (r: UnitConfig)
        ensures
            r@ == (UnitSettings {
                description: seq![],
                after: seq![],
                before: seq![],
                requires: seq![],
                requisite: seq![],
                wants: seq![],
                conflicts: seq![],
                on_failure: seq![],
                part_of: seq![],
                binds_to: seq![],
                default_dependencies: false,
                documentation: seq![],
            }),
    {
        let r = UnitConfig {
            description: String::new(),
            after: Vec::new(),
            before: Vec::new(),
            requires: Vec::new(),
            requisite: Vec::new(),
            wants: Vec::new(),
            conflicts: Vec::new(),
            on_failure: Vec::new(),
            part_of: Vec::new(),
            binds_to: Vec::new(),
            default_dependencies: false,
            documentation: Vec::new(),
        };
        assert(r@ =~= (UnitSettings {
            description: seq![],
            after: seq![],
            before: seq![],
            requires: seq![],
            requisite: seq![],
            wants: seq![],
            conflicts: seq![],
            on_failure: seq![],
            part_of: seq![],
            binds_to: seq![],
            default_dependencies: false,
            documentation: seq![],
        }));
        r
    }
}

/// `[Service]`.
#[derive(Debug, Clone)]
pub struct ServiceConfig {
    pub service_type: ServiceType,
    pub remain_after_exit: bool,
    pub exec_start_pre: Vec<ExecCommand>,
    pub exec_start: Vec<ExecCommand>,
    pub exec_start_post: Vec<ExecCommand>,
    pub exec_stop: Vec<ExecCommand>,
    pub exec_reload: Vec<ExecCommand>,
    pub restart: RestartPolicy,
    pub restart_sec: TimeSpan,
    pub timeout_start_sec: TimeSpan,
    pub timeout_stop_sec: TimeSpan,
    pub environment: Vec<(String, String)>,
    /// Path, and whether it may be missing.
    pub environment_files: Vec<(String, bool)>,
    /// Path, and whether failure to enter it is ignored.
    pub working_directory: Option<(String, bool)>,
    pub user: Option<String>,
    pub group: Option<String>,
    pub nice: Option<i32>,
    pub umask: Option<u32>,
    pub kill_signal: Option<Signal>,
    pub kill_mode: KillMode,
    pub send_sigkill: bool,
    pub success_exit_status: Option<ExitCodeSet>,
    pub pid_file: Option<String>,
    /// For `Type=dbus`, the bus name whose ownership makes the unit active.
    pub bus_name: Option<String>,
    pub rlimits: Vec<Rlimit>,
    pub cgroup_limits: CgroupLimits,
    pub std_output: StdioTarget,
    pub std_error: StdioTarget,
    /// Whether standard input is inherited; else it is `/dev/null`.
    pub std_input: bool,
}

/// `[Service]`, as specifications see it.
#[verifier::ext_equal]
pub ghost struct ServiceSettings {
    pub service_type: ServiceType,
    pub remain_after_exit: bool,
    pub exec_start_pre: Seq<CommandLine>,
    pub exec_start: Seq<CommandLine>,
    pub exec_start_post: Seq<CommandLine>,
    pub exec_stop: Seq<CommandLine>,
    pub exec_reload: Seq<CommandLine>,
    pub restart: RestartPolicy,
    pub restart_sec: nat,
    pub timeout_start_sec: nat,
    pub timeout_stop_sec: nat,
    pub environment: Seq<(Text, Text)>,
    pub environment_files: Seq<(Text, bool)>,
    pub working_directory: Option<(Text, bool)>,
    pub user: Option<Text>,
    pub group: Option<Text>,
    pub nice: Option<int>,
    pub umask: Option<u32>,
    pub kill_signal: Option<int>,
    pub kill_mode: KillMode,
    pub send_sigkill: bool,
    pub success_exit_status: Option<Statuses>,
    pub pid_file: Option<Text>,
    pub bus_name: Option<Text>,
    pub rlimits: Seq<Rlimit>,
    pub cgroup_limits: CgroupLimits,
    pub std_output: Stdio,
    pub std_error: Stdio,
    pub std_input: bool,
}

pub open spec fn pairs_view(v: Seq<(String, String)>) -> Seq<(Text, Text)> {
    Seq::new(v.len(), |i: int| (v[i].0@, v[i].1@))
}

pub open spec fn flagged_view(v: Seq<(String, bool)>) -> Seq<(Text, bool)> {
    Seq::new(v.len(), |i: int| (v[i].0@, v[i].1))
}

pub open spec fn opt_flagged(v: Option<(String, bool)>) -> Option<(Text, bool)> {
    match v {
        Some((p, b)) => Some((p@, b)),
        None => None,
    }
}

pub open spec fn opt_signal(v: Option<Signal>) -> Option<int> {
    match v {
        Some(s) => Some(s.raw()),
        None => None,
    }
}

pub open spec fn opt_statuses(v: Option<ExitCodeSet>) -> Option<Statuses> {
    match v {
        Some(s) => Some(s@),
        None => None,
    }
}

pub open spec fn opt_number(v: Option<i32>) -> Option<int> {
    match v {
        Some(n) => Some(n as int),
        None => None,
    }
}

impl View for ServiceConfig {
    type V = ServiceSettings;

    open spec fn view(&self) -> ServiceSettings {
        ServiceSettings {
            service_type: self.service_type,
            remain_after_exit: self.remain_after_exit,
            exec_start_pre: views(self.exec_start_pre@),
            exec_start: views(self.exec_start@),
            exec_start_post: views(self.exec_start_post@),
            exec_stop: views(self.exec_stop@),
            exec_reload: views(self.exec_reload@),
            restart: self.restart,
            restart_sec: self.restart_sec.usec as nat,
            timeout_start_sec: self.timeout_start_sec.usec as nat,
            timeout_stop_sec: self.timeout_stop_sec.usec as nat,
            environment: pairs_view(self.environment@),
            environment_files: flagged_view(self.environment_files@),
            working_directory: opt_flagged(self.working_directory),
            user: opt_text(self.user),
            group: opt_text(self.group),
            nice: opt_number(self.nice),
            umask: self.umask,
            kill_signal: opt_signal(self.kill_signal),
            kill_mode: self.kill_mode,
            send_sigkill: self.send_sigkill,
            success_exit_status: opt_statuses(self.success_exit_status),
            pid_file: opt_text(self.pid_file),
            bus_name: opt_text(self.bus_name),
            rlimits: self.rlimits@,
            cgroup_limits: self.cgroup_limits,
            std_output: self.std_output@,
            std_error: self.std_error@,
            std_input: self.std_input,
        }
    }
}

impl Default for ServiceConfig {
    fn default() -> (r: ServiceConfig)
        ensures
            r@ == (ServiceSettings {
                service_type: ServiceType::Simple,
                remain_after_exit: false,
                exec_start_pre: seq![],
                exec_start: seq![],
                exec_start_post: seq![],
                exec_stop: seq![],
                exec_reload: seq![],
                restart: RestartPolicy::No,
                restart_sec: 0,
                timeout_start_sec: 0,
                timeout_stop_sec: 0,
                environment: seq![],
                environment_files: seq![],
                working_directory: None,
                user: None,
                group: None,
                nice: None,
                umask: None,
                kill_signal: None,
                kill_mode: KillMode::ControlGroup,
                send_sigkill: false,
                success_exit_status: None,
                pid_file: None,
                bus_name: None,
                rlimits: seq![],
                cgroup_limits: (CgroupLimits {
                    memory_max: None,
                    memory_high: None,
                    cpu_weight: None,
                    tasks_max: None,
                }),
                std_output: Stdio::Journal,
                std_error: Stdio::Journal,
                std_input: false,
            }),
    {
        let r = ServiceConfig {
            service_type: ServiceType::Simple,
            remain_after_exit: false,
            exec_start_pre: Vec::new(),
            exec_start: Vec::new(),
            exec_start_post: Vec::new(),
            exec_stop: Vec::new(),
            exec_reload: Vec::new(),
            restart: RestartPolicy::No,
            restart_sec: TimeSpan { usec: 0 },
            timeout_start_sec: TimeSpan { usec: 0 },
            timeout_stop_sec: TimeSpan { usec: 0 },
            environment: Vec::new(),
            environment_files: Vec::new(),
            working_directory: None,
            user: None,
            group: None,
            nice: None,
            umask: None,
            kill_signal: None,
            kill_mode: KillMode::ControlGroup,
            send_sigkill: false,
            success_exit_status: None,
            pid_file: None,
            bus_name: None,
            rlimits: Vec::new(),
            cgroup_limits: CgroupLimits {
                memory_max: None,
                memory_high: None,
                cpu_weight: None,
                tasks_max: None,
            },
            std_output: StdioTarget::Journal,
            std_error: StdioTarget::Journal,
            std_input: false,
        };
        proof {
            assert(r@.exec_start_pre =~= seq![]);
            assert(r@.exec_start =~= seq![]);
            assert(r@.exec_start_post =~= seq![]);
            assert(r@.exec_stop =~= seq![]);
            assert(r@.exec_reload =~= seq![]);
            assert(r@.environment =~= seq![]);
            assert(r@.environment_files =~= seq![]);
            assert(r@.rlimits =~= seq![]);
        }
        r
    }
}

impl ServiceConfig {
    /// The exits that count as success: code 0 always, and what
    /// `SuccessExitStatus=` adds.
    pub fn effective_exit_success(&self) -> (r: ExitCodeSet)
        ensures
            r@ == (match self@.success_exit_status {
                Some(s) => Statuses { codes: seq![(0u32, 0u32)] + s.codes, signals: s.signals },
                None => Statuses { codes: seq![(0u32, 0u32)], signals: seq![] },
            }),
    {
        let mut set = ExitCodeSet::default_success();
        match &self.success_exit_status {
            Some(s) => {
                let mut i: usize = 0;
                while i < s.codes.len()
                    invariant
                        i <= s.codes.len(),
                        set.codes@ == seq![(0u32, 0u32)] + s.codes@.take(i as int),
                        set.signals@ == Seq::<i32>::empty(),
                    decreases s.codes.len() - i,
                {
                    set.codes.push(s.codes[i]);
                    i = i + 1;
                    assert(set.codes@ =~= seq![(0u32, 0u32)] + s.codes@.take(i as int));
                }
                let mut j: usize = 0;
                assert(s.codes@.take(s.codes.len() as int) =~= s.codes@);
                while j < s.signals.len()
                    invariant
                        j <= s.signals.len(),
                        set.codes@ == seq![(0u32, 0u32)] + s.codes@,
                        set.signals@ == s.signals@.take(j as int),
                    decreases s.signals.len() - j,
                {
                    set.signals.push(s.signals[j]);
                    j = j + 1;
                    assert(set.signals@ =~= s.signals@.take(j as int));
                }
                assert(s.signals@.take(s.signals.len() as int) =~= s.signals@);
            },
            None => {},
        }
        set
    }
}

/// `[Timer]`.
#[derive(Debug, Clone)]
pub struct TimerConfig {
    pub on_calendar: Vec<CalendarSpec>,
    pub on_boot_sec: Vec<TimeSpan>,
    pub on_startup_sec: Vec<TimeSpan>,
    pub on_active_sec: Vec<TimeSpan>,
    pub on_inactive_sec: Vec<TimeSpan>,
    pub persistent: bool,
    pub accuracy_sec: TimeSpan,
    pub randomized_delay_sec: TimeSpan,
    pub unit: Option<String>,
    pub remain_after_elapse: bool,
    pub wake_system: bool,
}

/// `[Timer]`, as specifications see it.
#[verifier::ext_equal]
pub ghost struct TimerSettings {
    pub on_calendar: Seq<Text>,
    pub on_boot_sec: Seq<nat>,
    pub on_startup_sec: Seq<nat>,
    pub on_active_sec: Seq<nat>,
    pub on_inactive_sec: Seq<nat>,
    pub persistent: bool,
    pub accuracy_sec: nat,
    pub randomized_delay_sec: nat,
    pub unit: Option<Text>,
    pub remain_after_elapse: bool,
    pub wake_system: bool,
}

pub open spec fn spans_view(v: Seq<TimeSpan>) -> Seq<nat> {
    Seq::new(v.len(), |i: int| v[i].usec as nat)
}

impl View for TimerConfig {
    type V = TimerSettings;

    open spec fn view(&self) -> TimerSettings {
        TimerSettings {
            on_calendar: views(self.on_calendar@),
            on_boot_sec: spans_view(self.on_boot_sec@),
            on_startup_sec: spans_view(self.on_startup_sec@),
            on_active_sec: spans_view(self.on_active_sec@),
            on_inactive_sec: spans_view(self.on_inactive_sec@),
            persistent: self.persistent,
            accuracy_sec: self.accuracy_sec.usec as nat,
            randomized_delay_sec: self.randomized_delay_sec.usec as nat,
            unit: opt_text(self.unit),
            remain_after_elapse: self.remain_after_elapse,
            wake_system: self.wake_system,
        }
    }
}

/// `[Socket]`.
#[derive(Debug, Clone)]
pub struct SocketConfig {
    /// Unix socket paths and TCP addresses.
    pub listen_stream: Vec<String>,
    /// Pass each connection instead of the listening socket.
    pub accept: bool,
    /// The unit to activate, where it is not the one of the same prefix.
    pub service: Option<String>,
}

/// `[Socket]`, as specifications see it.
#[verifier::ext_equal]
pub ghost struct SocketSettings {
    pub listen_stream: Seq<Text>,
    pub accept: bool,
    pub service: Option<Text>,
}

impl View for SocketConfig {
    type V = SocketSettings;

    open spec fn view(&self) -> SocketSettings {
        SocketSettings {
            listen_stream: texts(self.listen_stream@),
            accept: self.accept,
            service: opt_text(self.service),
        }
    }
}

/// `[Mount]`.
#[derive(Debug, Clone)]
pub struct MountConfig {
    /// The device, or the pseudo-filesystem.
    pub what: Option<String>,
    /// The mount point; where it is not set, the one the unit is named after.
    pub where_: Option<String>,
    pub fs_type: Option<String>,
    /// Comma-separated mount options.
    pub options: Option<String>,
}

/// `[Mount]`, as specifications see it.
#[verifier::ext_equal]
pub ghost struct MountSettings {
    pub what: Option<Text>,
    pub where_: Option<Text>,
    pub fs_type: Option<Text>,
    pub options: Option<Text>,
}

impl View for MountConfig {
    type V = MountSettings;

    open spec fn view(&self) -> MountSettings {
        MountSettings {
            what: opt_text(self.what),
            where_: opt_text(self.where_),
            fs_type: opt_text(self.fs_type),
            options: opt_text(self.options),
        }
    }
}

/// `[Install]`.
#[derive(Debug, Clone)]
pub struct InstallConfig {
    pub wanted_by: Vec<String>,
    pub required_by: Vec<String>,
    pub also: Vec<String>,
    pub alias: Vec<String>,
}

/// `[Install]`, as specifications see it.
#[verifier::ext_equal]
pub ghost struct InstallSettings {
    pub wanted_by: Seq<Text>,
    pub required_by: Seq<Text>,
    pub also: Seq<Text>,
    pub alias: Seq<Text>,
}

impl View for InstallConfig {
    type V = InstallSettings;

    open spec fn view(&self) -> InstallSettings {
        InstallSettings {
            wanted_by: texts(self.wanted_by@),
            required_by: texts(self.required_by@),
            also: texts(self.also@),
            alias: texts(self.alias@),
        }
    }
}

impl Default for InstallConfig {
    fn default() -> (r: InstallConfig)
        ensures
            r@ == (InstallSettings {
                wanted_by: seq![],
                required_by: seq![],
                also: seq![],
                alias: seq![],
            }),
    {
        let r = InstallConfig {
            wanted_by: Vec::new(),
            required_by: Vec::new(),
            also: Vec::new(),
            alias: Vec::new(),
        };
        assert(r@ =~= (InstallSettings {
            wanted_by: seq![],
            required_by: seq![],
            also: seq![],
            alias: seq![],
        }));
        r
    }
}

/// A unit file, interpreted.
#[derive(Debug, Clone)]
pub struct UnitFile {
    /// The file that it came from, if one backs it.
    pub path: Option<String>,
    pub unit: UnitConfig,
    pub service: Option<ServiceConfig>,
    pub timer: Option<TimerConfig>,
    pub socket: Option<SocketConfig>,
    pub mount: Option<MountConfig>,
    pub install: InstallConfig,
}

/// A unit file, as specifications see it.
#[verifier::ext_equal]
pub ghost struct FileSettings {
    pub path: Option<Text>,
    pub unit: UnitSettings,
    pub service: Option<ServiceSettings>,
    pub timer: Option<TimerSettings>,
    pub socket: Option<SocketSettings>,
    pub mount: Option<MountSettings>,
    pub install: InstallSettings,
}

pub open spec fn opt_view<T: View>(v: Option<T>) -> Option<T::V> {
    match v {
        Some(x) => Some(x@),
        None => None,
    }
}

impl View for UnitFile {
    type V = FileSettings;

    open spec fn view(&self) -> FileSettings {
        FileSettings {
            path: opt_text(self.path),
            unit: self.unit@,
            service: opt_view(self.service),
            timer: opt_view(self.timer),
            socket: opt_view(self.socket),
            mount: opt_view(self.mount),
            install: self.install@,
        }
    }
}

/// The kind of a unit file, from the section that it has.
pub open spec fn file_kind(f: FileSettings) -> UnitKind {
    if f.service is Some {
        UnitKind::Service
    } else if f.timer is Some {
        UnitKind::Timer
    } else if f.socket is Some {
        UnitKind::Socket
    } else if f.mount is Some {
        UnitKind::Mount
    } else {
        UnitKind::Target
    }
}

impl UnitFile {
    pub fn kind(&self) -> (r: UnitKind)
        ensures
            r == file_kind(self@),
    {
        if self.service.is_some() {
            UnitKind::Service
        } else if self.timer.is_some() {
            UnitKind::Timer
        } else if self.socket.is_some() {
            UnitKind::Socket
        } else if self.mount.is_some() {
            UnitKind::Mount
        } else {
            UnitKind::Target
        }
    }
}

// ---- settings -------------------------------------------------------------------

/// The value of a key, specifiers expanded.
pub open spec fn setting(d: Document, c: Specifiers, section: Text, key: Text) -> Option<Text> {
    match value(d, section, key) {
        Some(v) => Some(specified(c, v)),
        None => None,
    }
}

/// All values of a key, specifiers expanded.
pub open spec fn settings(d: Document, c: Specifiers, section: Text, key: Text) -> Seq<Text> {
    let v = values(d, section, key);
    Seq::new(v.len(), |i: int| specified(c, v[i]))
}

/// The words of several texts, one behind the other.
pub open spec fn all_words(v: Seq<Text>) -> Seq<Text>
    decreases v.len(),
{
    if v.len() == 0 {
        seq![]
    } else {
        all_words(v.drop_last()) + words(v.last())
    }
}

/// A key that lists names: the words of all its values.
pub open spec fn name_list(d: Document, c: Specifiers, section: Text, key: Text) -> Seq<Text> {
    all_words(settings(d, c, section, key))
}

/// What all values give, one behind the other, or the first error.
pub open spec fn gathered<A>(v: Seq<Text>, f: spec_fn(Text) -> Result<Seq<A>, Text>) -> Result<
    Seq<A>,
    Text,
>
    decreases v.len(),
{
    if v.len() == 0 {
        Ok(seq![])
    } else {
        match (gathered(v.drop_last(), f), f(v.last())) {
            (Err(e), _) => Err(e),
            (Ok(_), Err(e)) => Err(e),
            (Ok(a), Ok(b)) => Ok(a + b),
        }
    }
}

proof fn gathered_error_stays<A>(v: Seq<Text>, f: spec_fn(Text) -> Result<Seq<A>, Text>, i: int)
    requires
        0 <= i <= v.len(),
        gathered(v.take(i), f) is Err,
    ensures
        gathered(v, f) == gathered(v.take(i), f),
    decreases v.len(),
{
    if i == v.len() {
        assert(v.take(i) =~= v);
    } else {
        assert(v.drop_last().take(i) =~= v.take(i));
        gathered_error_stays(v.drop_last(), f, i);
    }
}

/// The settings of a unit file and what its specifiers stand for.
struct Source<'a> {
    raw: &'a RawUnitFile,
    spec_context: &'a SpecifierContext,
}

impl<'a> Source<'a> {
    spec fn doc(self) -> Document {
        self.raw@
    }

    spec fn ctx(self) -> Specifiers {
        self.spec_context@
    }

    fn raw_scalar(&self, section: &str, key: &str) -> (r: Option<String>)
        ensures
            opt_text(r) == value(self.doc(), section@, key@),
    {
        self.raw.scalar(section, key)
    }

    fn scalar(&self, section: &str, key: &str) -> (r: Option<String>)
        ensures
            opt_text(r) == setting(self.doc(), self.ctx(), section@, key@),
    {
        match self.raw.scalar(section, key) {
            Some(v) => Some(self.spec_context.expand(v.as_str())),
            None => None,
        }
    }

    fn list(&self, section: &str, key: &str) -> (r: Vec<String>)
        ensures
            texts(r@) == settings(self.doc(), self.ctx(), section@, key@),
    {
        let v = self.raw.list(section, key);
        let mut out: Vec<String> = Vec::new();
        let mut i: usize = 0;
        while i < v.len()
            invariant
                i <= v.len(),
                out.len() == i,
                texts(v@) == values(self.doc(), section@, key@),
                forall|j: int|
                    0 <= j < i ==> (#[trigger] out@[j])@ == specified(self.ctx(), v@[j]@),
            decreases v.len() - i,
        {
            out.push(self.spec_context.expand(v[i].as_str()));
            i = i + 1;
        }
        proof {
            let s = settings(self.doc(), self.ctx(), section@, key@);
            assert(texts(out@).len() == s.len());
            assert forall|j: int| 0 <= j < s.len() implies texts(out@)[j] == s[j] by {
                assert(texts(v@)[j] == v@[j]@);
            }
            assert(texts(out@) =~= s);
        }
        out
    }

    fn names(&self, section: &str, key: &str) -> (r: Vec<String>)
        ensures
            texts(r@) == name_list(self.doc(), self.ctx(), section@, key@),
    {
        let v = self.list(section, key);
        let mut out: Vec<String> = Vec::new();
        let mut i: usize = 0;
        proof {
            assert(texts(v@).take(0) =~= seq![]);
            assert(texts(out@) =~= seq![]);
        }
        while i < v.len()
            invariant
                i <= v.len(),
                texts(out@) == all_words(texts(v@).take(i as int)),
            decreases v.len() - i,
        {
            let ghost upto = texts(v@).take(i + 1);
            proof {
                assert(upto.drop_last() =~= texts(v@).take(i as int));
                assert(upto.last() == v@[i as int]@);
            }
            let ghost before = out@;
            let mut w = split_words(v[i].as_str());
            let ghost ws = w@;
            out.append(&mut w);
            assert(texts(out@) =~= texts(before) + texts(ws));
            i = i + 1;
        }
        assert(texts(v@).take(v.len() as int) =~= texts(v@));
        out
    }

    fn boolean(&self, section: &str, key: &str, default: bool) -> (r: Result<bool, String>)
        ensures
            plain_result(r) == bool_setting(
                setting(self.doc(), self.ctx(), section@, key@),
                default,
            ),
    {
        match self.scalar(section, key) {
            Some(v) => parse_bool(v.as_str()),
            None => Ok(default),
        }
    }

    fn span(&self, section: &str, key: &str, default: u64) -> (r: Result<TimeSpan, String>)
        ensures
            span_result(r) == span_setting(
                setting(self.doc(), self.ctx(), section@, key@),
                default as nat,
            ),
    {
        match self.scalar(section, key) {
            Some(v) => TimeSpan::parse(v.as_str()),
            None => Ok(TimeSpan { usec: default }),
        }
    }

    fn unquoted_scalar(&self, section: &str, key: &str) -> (r: Result<Option<String>, String>)
        ensures
            opt_result(r) == unquoted_setting(setting(self.doc(), self.ctx(), section@, key@)),
    {
        match self.scalar(section, key) {
            Some(v) => match unquote_scalar(v.as_str()) {
                Ok(t) => Ok(Some(t)),
                Err(e) => Err(e),
            },
            None => Ok(None),
        }
    }

    fn spans(&self, section: &str, key: &str) -> (r: Result<Vec<TimeSpan>, String>)
        ensures
            match r {
                Ok(v) => gathered(
                    settings(self.doc(), self.ctx(), section@, key@),
                    span_item(),
                ) == Ok::<Seq<nat>, Text>(spans_view(v@)),
                Err(e) => gathered(
                    settings(self.doc(), self.ctx(), section@, key@),
                    span_item(),
                ) == Err::<Seq<nat>, Text>(e@),
            },
    {
        let v = self.list(section, key);
        let mut out: Vec<TimeSpan> = Vec::new();
        let mut i: usize = 0;
        proof {
            assert(texts(v@).take(0) =~= seq![]);
            assert(spans_view(out@) =~= seq![]);
        }
        while i < v.len()
            invariant
                i <= v.len(),
                texts(v@) == settings(self.doc(), self.ctx(), section@, key@),
                gathered(texts(v@).take(i as int), span_item()) == Ok::<Seq<nat>, Text>(
                    spans_view(out@),
                ),
            decreases v.len() - i,
        {
            let ghost upto = texts(v@).take(i + 1);
            proof {
                assert(upto.drop_last() =~= texts(v@).take(i as int));
                assert(upto.last() == v@[i as int]@);
            }
            match TimeSpan::parse(v[i].as_str()) {
                Ok(t) => {
                    let ghost before = out@;
                    out.push(t);
                    assert(spans_view(out@) =~= spans_view(before) + seq![t.usec as nat]);
                },
                Err(e) => {
                    proof {
                        gathered_error_stays(texts(v@), span_item(), i + 1);
                    }
                    return Err(e);
                },
            }
            i = i + 1;
        }
        assert(texts(v@).take(v.len() as int) =~= texts(v@));
        Ok(out)
    }

    fn calendars(&self, section: &str, key: &str) -> (r: Result<Vec<CalendarSpec>, String>)
        ensures
            match r {
                Ok(v) => gathered(
                    settings(self.doc(), self.ctx(), section@, key@),
                    calendar_item(),
                ) == Ok::<Seq<Text>, Text>(views(v@)),
                Err(e) => gathered(
                    settings(self.doc(), self.ctx(), section@, key@),
                    calendar_item(),
                ) == Err::<Seq<Text>, Text>(e@),
            },
    {
        let v = self.list(section, key);
        let mut out: Vec<CalendarSpec> = Vec::new();
        let mut i: usize = 0;
        proof {
            assert(texts(v@).take(0) =~= seq![]);
            assert(views(out@) =~= seq![]);
        }
        while i < v.len()
            invariant
                i <= v.len(),
                texts(v@) == settings(self.doc(), self.ctx(), section@, key@),
                gathered(texts(v@).take(i as int), calendar_item()) == Ok::<Seq<Text>, Text>(
                    views(out@),
                ),
            decreases v.len() - i,
        {
            let ghost upto = texts(v@).take(i + 1);
            proof {
                assert(upto.drop_last() =~= texts(v@).take(i as int));
                assert(upto.last() == v@[i as int]@);
            }
            match CalendarSpec::parse(v[i].as_str()) {
                Ok(t) => {
                    let ghost before = out@;
                    let ghost text = t@;
                    out.push(t);
                    assert(views(out@) =~= views(before) + seq![text]);
                },
                Err(e) => {
                    proof {
                        gathered_error_stays(texts(v@), calendar_item(), i + 1);
                    }
                    return Err(e);
                },
            }
            i = i + 1;
        }
        assert(texts(v@).take(v.len() as int) =~= texts(v@));
        Ok(out)
    }

    fn commands(&self, key: &str) -> (r: Result<Vec<ExecCommand>, String>)
        ensures
            match r {
                Ok(v) => gathered(
                    settings(self.doc(), self.ctx(), "Service"@, key@),
                    command_item(),
                ) == Ok::<Seq<CommandLine>, Text>(views(v@)),
                Err(e) => gathered(
                    settings(self.doc(), self.ctx(), "Service"@, key@),
                    command_item(),
                ) == Err::<Seq<CommandLine>, Text>(e@),
            },
    {
        let v = self.list("Service", key);
        let mut out: Vec<ExecCommand> = Vec::new();
        let mut i: usize = 0;
        proof {
            assert(texts(v@).take(0) =~= seq![]);
            assert(views(out@) =~= seq![]);
        }
        while i < v.len()
            invariant
                i <= v.len(),
                texts(v@) == settings(self.doc(), self.ctx(), "Service"@, key@),
                gathered(texts(v@).take(i as int), command_item()) == Ok::<
                    Seq<CommandLine>,
                    Text,
                >(views(out@)),
            decreases v.len() - i,
        {
            let ghost upto = texts(v@).take(i + 1);
            let ghost before = out@;
            proof {
                assert(upto.drop_last() =~= texts(v@).take(i as int));
                assert(upto.last() == v@[i as int]@);
                assert(views(before) + Seq::<CommandLine>::empty() =~= views(before));
            }
            let trimmed_value = trim_start(v[i].as_str());
            let (ignore_failure, rest) = match strip_char(trimmed_value, '-') {
                Some(t) => (true, trim_start(t)),
                None => (false, trimmed_value),
            };
            if trim(rest).unicode_len() > 0 {
                match tokenize(rest) {
                    Ok(argv) => {
                        if argv.len() > 0 {
                            let cmd = ExecCommand { argv, ignore_failure };
                            let ghost line = cmd@;
                            out.push(cmd);
                            assert(views(out@) =~= views(before) + seq![line]);
                        }
                    },
                    Err(e) => {
                        proof {
                            gathered_error_stays(texts(v@), command_item(), i + 1);
                        }
                        return Err(e);
                    },
                }
            }
            i = i + 1;
        }
        assert(texts(v@).take(v.len() as int) =~= texts(v@));
        Ok(out)
    }

    fn environment(&self) -> (r: Result<Vec<(String, String)>, String>)
        ensures
            match r {
                Ok(v) => gathered(
                    settings(self.doc(), self.ctx(), "Service"@, "Environment"@),
                    assignment_item(),
                ) == Ok::<Seq<(Text, Text)>, Text>(pairs_view(v@)),
                Err(e) => gathered(
                    settings(self.doc(), self.ctx(), "Service"@, "Environment"@),
                    assignment_item(),
                ) == Err::<Seq<(Text, Text)>, Text>(e@),
            },
    {
        let v = self.list("Service", "Environment");
        let mut out: Vec<(String, String)> = Vec::new();
        let mut i: usize = 0;
        proof {
            assert(texts(v@).take(0) =~= seq![]);
            assert(pairs_view(out@) =~= seq![]);
        }
        while i < v.len()
            invariant
                i <= v.len(),
                texts(v@) == settings(self.doc(), self.ctx(), "Service"@, "Environment"@),
                gathered(texts(v@).take(i as int), assignment_item()) == Ok::<
                    Seq<(Text, Text)>,
                    Text,
                >(pairs_view(out@)),
            decreases v.len() - i,
        {
            let ghost upto = texts(v@).take(i + 1);
            proof {
                assert(upto.drop_last() =~= texts(v@).take(i as int));
                assert(upto.last() == v@[i as int]@);
            }
            match read_assignments(v[i].as_str()) {
                Ok(mut pairs) => {
                    let ghost before = out@;
                    let ghost more = pairs@;
                    out.append(&mut pairs);
                    assert(pairs_view(out@) =~= pairs_view(before) + pairs_view(more));
                },
                Err(e) => {
                    proof {
                        gathered_error_stays(texts(v@), assignment_item(), i + 1);
                    }
                    return Err(e);
                },
            }
            i = i + 1;
        }
        assert(texts(v@).take(v.len() as int) =~= texts(v@));
        Ok(out)
    }

    fn environment_files(&self) -> (r: Result<Vec<(String, bool)>, String>)
        ensures
            match r {
                Ok(v) => gathered(
                    settings(self.doc(), self.ctx(), "Service"@, "EnvironmentFile"@),
                    file_item(),
                ) == Ok::<Seq<(Text, bool)>, Text>(flagged_view(v@)),
                Err(e) => gathered(
                    settings(self.doc(), self.ctx(), "Service"@, "EnvironmentFile"@),
                    file_item(),
                ) == Err::<Seq<(Text, bool)>, Text>(e@),
            },
    {
        let v = self.list("Service", "EnvironmentFile");
        let mut out: Vec<(String, bool)> = Vec::new();
        let mut i: usize = 0;
        proof {
            assert(texts(v@).take(0) =~= seq![]);
            assert(flagged_view(out@) =~= seq![]);
        }
        while i < v.len()
            invariant
                i <= v.len(),
                texts(v@) == settings(self.doc(), self.ctx(), "Service"@, "EnvironmentFile"@),
                gathered(texts(v@).take(i as int), file_item()) == Ok::<Seq<(Text, bool)>, Text>(
                    flagged_view(out@),
                ),
            decreases v.len() - i,
        {
            let ghost upto = texts(v@).take(i + 1);
            proof {
                assert(upto.drop_last() =~= texts(v@).take(i as int));
                assert(upto.last() == v@[i as int]@);
            }
            match tokenize(v[i].as_str()) {
                Ok(toks) => {
                    let ghost before = flagged_view(out@);
                    let mut j: usize = 0;
                    assert(flagged_view(out@) =~= before + Seq::new(
                        0,
                        |k: int| optional_path(texts(toks@)[k]),
                    ));
                    while j < toks.len()
                        invariant
                            j <= toks.len(),
                            flagged_view(out@) == before + Seq::new(
                                j as nat,
                                |k: int| optional_path(texts(toks@)[k]),
                            ),
                        decreases toks.len() - j,
                    {
                        let ghost was = out@;
                        let pair = read_optional_path(toks[j].as_str());
                        let ghost shown = (pair.0@, pair.1);
                        out.push(pair);
                        assert(flagged_view(out@) =~= flagged_view(was).push(shown));
                        j = j + 1;
                        assert(flagged_view(out@) =~= before + Seq::new(
                            j as nat,
                            |k: int| optional_path(texts(toks@)[k]),
                        ));
                    }
                    assert(flagged_view(out@) =~= before + file_item()(v@[i as int]@)->Ok_0);
                },
                Err(e) => {
                    proof {
                        gathered_error_stays(texts(v@), file_item(), i + 1);
                    }
                    return Err(e);
                },
            }
            i = i + 1;
        }
        assert(texts(v@).take(v.len() as int) =~= texts(v@));
        Ok(out)
    }

    fn limits(&self, key: &str, resource: RlimitResource) -> (r: Result<Vec<Rlimit>, String>)
        ensures
            match r {
                Ok(v) => gathered(
                    settings(self.doc(), self.ctx(), "Service"@, key@),
                    limit_item(resource),
                ) == Ok::<Seq<Rlimit>, Text>(v@),
                Err(e) => gathered(
                    settings(self.doc(), self.ctx(), "Service"@, key@),
                    limit_item(resource),
                ) == Err::<Seq<Rlimit>, Text>(e@),
            },
    {
        let v = self.list("Service", key);
        let mut out: Vec<Rlimit> = Vec::new();
        let mut i: usize = 0;
        assert(texts(v@).take(0) =~= seq![]);
        while i < v.len()
            invariant
                i <= v.len(),
                texts(v@) == settings(self.doc(), self.ctx(), "Service"@, key@),
                gathered(texts(v@).take(i as int), limit_item(resource)) == Ok::<
                    Seq<Rlimit>,
                    Text,
                >(out@),
            decreases v.len() - i,
        {
            let ghost upto = texts(v@).take(i + 1);
            proof {
                assert(upto.drop_last() =~= texts(v@).take(i as int));
                assert(upto.last() == v@[i as int]@);
            }
            match parse_rlimit(resource, v[i].as_str()) {
                Ok(l) => {
                    let ghost before = out@;
                    out.push(l);
                    assert(out@ =~= before + seq![l]);
                },
                Err(e) => {
                    proof {
                        gathered_error_stays(texts(v@), limit_item(resource), i + 1);
                    }
                    return Err(e);
                },
            }
            i = i + 1;
        }
        assert(texts(v@).take(v.len() as int) =~= texts(v@));
        Ok(out)
    }
}

pub open spec fn bool_setting(v: Option<Text>, default: bool) -> Result<bool, Text> {
    match v {
        Some(t) => bool_of(t),
        None => Ok(default),
    }
}

pub open spec fn span_setting(v: Option<Text>, default: nat) -> Result<nat, Text> {
    match v {
        Some(t) => span_of(t),
        None => Ok(default),
    }
}

pub open spec fn unquoted_setting(v: Option<Text>) -> Result<Option<Text>, Text> {
    match v {
        Some(t) => match unquoted(t) {
            Ok(u) => Ok(Some(u)),
            Err(e) => Err(e),
        },
        None => Ok(None),
    }
}

/// A result over an optional text, as specifications see it.
pub open spec fn opt_result(r: Result<Option<String>, String>) -> Result<Option<Text>, Text> {
    match r {
        Ok(v) => Ok(opt_text(v)),
        Err(e) => Err(e@),
    }
}

/// One time span.
pub open spec fn span_item() -> spec_fn(Text) -> Result<Seq<nat>, Text> {
    |v: Text|
        match span_of(v) {
            Ok(n) => Ok(seq![n]),
            Err(e) => Err(e),
        }
}

/// One calendar expression.
pub open spec fn calendar_item() -> spec_fn(Text) -> Result<Seq<Text>, Text> {
    |v: Text|
        match calendar_of(v) {
            Ok(t) => Ok(seq![t]),
            Err(e) => Err(e),
        }
}

/// The command line that a value gives: none where there is nothing but a `-`.
pub open spec fn command_of(v: Text) -> Result<Seq<CommandLine>, Text> {
    let t = trimmed_start(v);
    let ignore_failure = t.len() > 0 && t[0] == '-';
    let rest = if ignore_failure {
        trimmed_start(t.skip(1))
    } else {
        t
    };
    if trimmed(rest).len() == 0 {
        Ok(seq![])
    } else {
        match tokens(rest) {
            Err(e) => Err(e),
            Ok(argv) => if argv.len() == 0 {
                Ok(seq![])
            } else {
                Ok(seq![CommandLine { argv, ignore_failure }])
            },
        }
    }
}

pub open spec fn command_item() -> spec_fn(Text) -> Result<Seq<CommandLine>, Text> {
    |v: Text| command_of(v)
}

/// The assignments that words make, or the first that is none.
pub open spec fn assignments(toks: Seq<Text>) -> Result<Seq<(Text, Text)>, Text>
    decreases toks.len(),
{
    if toks.len() == 0 {
        Ok(seq![])
    } else {
        match (assignments(toks.drop_last()), cut(toks.last(), '=')) {
            (Err(e), _) => Err(e),
            (Ok(_), None) => Err(
                "Environment assignment `"@ + toks.last() + "` lacks `=`"@,
            ),
            (Ok(v), Some(pair)) => Ok(v.push(pair)),
        }
    }
}

proof fn assignments_error_stays(toks: Seq<Text>, i: int)
    requires
        0 <= i <= toks.len(),
        assignments(toks.take(i)) is Err,
    ensures
        assignments(toks) == assignments(toks.take(i)),
    decreases toks.len(),
{
    if i == toks.len() {
        assert(toks.take(i) =~= toks);
    } else {
        assert(toks.drop_last().take(i) =~= toks.take(i));
        assignments_error_stays(toks.drop_last(), i);
    }
}

/// The assignments of one value.
pub open spec fn assignments_of(v: Text) -> Result<Seq<(Text, Text)>, Text> {
    match tokens(v) {
        Ok(toks) => assignments(toks),
        Err(e) => Err(e),
    }
}

pub open spec fn assignment_item() -> spec_fn(Text) -> Result<Seq<(Text, Text)>, Text> {
    |v: Text| assignments_of(v)
}

fn read_assignments(v: &str) -> (r: Result<Vec<(String, String)>, String>)
    ensures
        match r {
            Ok(p) => assignments_of(v@) == Ok::<Seq<(Text, Text)>, Text>(pairs_view(p@)),
            Err(e) => assignments_of(v@) == Err::<Seq<(Text, Text)>, Text>(e@),
        },
{
    let toks = match tokenize(v) {
        Ok(t) => t,
        Err(e) => {
            return Err(e);
        },
    };
    let mut out: Vec<(String, String)> = Vec::new();
    let mut i: usize = 0;
    proof {
        assert(texts(toks@).take(0) =~= seq![]);
        assert(pairs_view(out@) =~= seq![]);
    }
    while i < toks.len()
        invariant
            i <= toks.len(),
            tokens(v@) == Ok::<Seq<Text>, Text>(texts(toks@)),
            assignments(texts(toks@).take(i as int)) == Ok::<Seq<(Text, Text)>, Text>(
                pairs_view(out@),
            ),
        decreases toks.len() - i,
    {
        let ghost upto = texts(toks@).take(i + 1);
        proof {
            assert(upto.drop_last() =~= texts(toks@).take(i as int));
            assert(upto.last() == toks@[i as int]@);
        }
        match split_once(toks[i].as_str(), '=') {
            Some((k, x)) => {
                let ghost before = out@;
                out.push((owned(k), owned(x)));
                assert(pairs_view(out@) =~= pairs_view(before).push((k@, x@)));
            },
            None => {
                proof {
                    assignments_error_stays(texts(toks@), i + 1);
                }
                return Err(
                    cat3("Environment assignment `", toks[i].as_str(), "` lacks `=`"),
                );
            },
        }
        i = i + 1;
    }
    assert(texts(toks@).take(toks.len() as int) =~= texts(toks@));
    Ok(out)
}

/// A path, and whether a leading `-` says that it may fail.
pub open spec fn optional_path(v: Text) -> (Text, bool) {
    if v.len() > 0 && v[0] == '-' {
        (v.skip(1), true)
    } else {
        (v, false)
    }
}

fn read_optional_path(v: &str) -> (r: (String, bool))
    ensures
        (r.0@, r.1) == optional_path(v@),
{
    match strip_char(v, '-') {
        Some(p) => (owned(p), true),
        None => (owned(v), false),
    }
}

pub open spec fn file_item() -> spec_fn(Text) -> Result<Seq<(Text, bool)>, Text> {
    |v: Text|
        match tokens(v) {
            Ok(toks) => Ok(Seq::new(toks.len(), |k: int| optional_path(toks[k]))),
            Err(e) => Err(e),
        }
}

pub open spec fn limit_item(resource: RlimitResource) -> spec_fn(Text) -> Result<
    Seq<Rlimit>,
    Text,
> {
    |v: Text|
        match rlimit_of(resource, v) {
            Ok(l) => Ok(seq![l]),
            Err(e) => Err(e),
        }
}

// ---- [Service] ------------------------------------------------------------------

pub open spec fn service_type_of(v: Option<Text>) -> Result<ServiceType, Text> {
    match v {
        None => Ok(ServiceType::Simple),
        Some(t) => {
            let l = lower(t);
            if l == "simple"@ {
                Ok(ServiceType::Simple)
            } else if l == "exec"@ {
                Ok(ServiceType::Exec)
            } else if l == "oneshot"@ {
                Ok(ServiceType::Oneshot)
            } else if l == "forking"@ {
                Ok(ServiceType::Forking)
            } else if l == "notify"@ {
                Ok(ServiceType::Notify)
            } else if l == "dbus"@ {
                Ok(ServiceType::Dbus)
            } else if l == "idle"@ {
                Ok(ServiceType::Idle)
            } else {
                Err("invalid service Type `"@ + l + "`"@)
            }
        },
    }
}

fn parse_service_type(v: Option<String>) -> (r: Result<ServiceType, String>)
    ensures
        plain_result(r) == service_type_of(opt_text(v)),
{
    match v {
        None => Ok(ServiceType::Simple),
        Some(t) => {
            let lowered = to_lower(t.as_str());
            let l = lowered.as_str();
            if same(l, "simple") {
                Ok(ServiceType::Simple)
            } else if same(l, "exec") {
                Ok(ServiceType::Exec)
            } else if same(l, "oneshot") {
                Ok(ServiceType::Oneshot)
            } else if same(l, "forking") {
                Ok(ServiceType::Forking)
            } else if same(l, "notify") {
                Ok(ServiceType::Notify)
            } else if same(l, "dbus") {
                Ok(ServiceType::Dbus)
            } else if same(l, "idle") {
                Ok(ServiceType::Idle)
            } else {
                Err(cat3("invalid service Type `", l, "`"))
            }
        },
    }
}

pub open spec fn restart_of(v: Option<Text>) -> Result<RestartPolicy, Text> {
    match v {
        None => Ok(RestartPolicy::No),
        Some(t) => {
            let l = lower(t);
            if l == "no"@ {
                Ok(RestartPolicy::No)
            } else if l == "on-success"@ {
                Ok(RestartPolicy::OnSuccess)
            } else if l == "on-failure"@ {
                Ok(RestartPolicy::OnFailure)
            } else if l == "on-abnormal"@ {
                Ok(RestartPolicy::OnAbnormal)
            } else if l == "on-abort"@ {
                Ok(RestartPolicy::OnAbort)
            } else if l == "on-watchdog"@ {
                Ok(RestartPolicy::OnWatchdog)
            } else if l == "always"@ {
                Ok(RestartPolicy::Always)
            } else {
                Err("invalid Restart policy `"@ + l + "`"@)
            }
        },
    }
}

fn parse_restart(v: Option<String>) -> (r: Result<RestartPolicy, String>)
    ensures
        plain_result(r) == restart_of(opt_text(v)),
{
    match v {
        None => Ok(RestartPolicy::No),
        Some(t) => {
            let lowered = to_lower(t.as_str());
            let l = lowered.as_str();
            if same(l, "no") {
                Ok(RestartPolicy::No)
            } else if same(l, "on-success") {
                Ok(RestartPolicy::OnSuccess)
            } else if same(l, "on-failure") {
                Ok(RestartPolicy::OnFailure)
            } else if same(l, "on-abnormal") {
                Ok(RestartPolicy::OnAbnormal)
            } else if same(l, "on-abort") {
                Ok(RestartPolicy::OnAbort)
            } else if same(l, "on-watchdog") {
                Ok(RestartPolicy::OnWatchdog)
            } else if same(l, "always") {
                Ok(RestartPolicy::Always)
            } else {
                Err(cat3("invalid Restart policy `", l, "`"))
            }
        },
    }
}

/// Kind of service: `Type=`, `BusName=` and `RemainAfterExit=`.
pub open spec fn kind_part(d: Document, c: Specifiers) -> Result<
    (ServiceType, Option<Text>, bool),
    Text,
> {
    match (
        service_type_of(setting(d, c, "Service"@, "Type"@)),
        unquoted_setting(setting(d, c, "Service"@, "BusName"@)),
        bool_setting(setting(d, c, "Service"@, "RemainAfterExit"@), false),
    ) {
        (Err(e), _, _) => Err(e),
        (Ok(_), Err(e), _) => Err(e),
        (Ok(_), Ok(_), Err(e)) => Err(e),
        (Ok(a), Ok(b), Ok(x)) => Ok((a, b, x)),
    }
}

fn build_kind(src: &Source) -> (r: Result<(ServiceType, Option<String>, bool), String>)
    ensures
        match r {
            Ok((a, b, x)) => kind_part(src.doc(), src.ctx()) == Ok::<
                (ServiceType, Option<Text>, bool),
                Text,
            >((a, opt_text(b), x)),
            Err(e) => kind_part(src.doc(), src.ctx()) == Err::<
                (ServiceType, Option<Text>, bool),
                Text,
            >(e@),
        },
{
    let a = match parse_service_type(src.scalar("Service", "Type")) {
        Ok(x) => x,
        Err(e) => {
            return Err(e);
        },
    };
    let b = match src.unquoted_scalar("Service", "BusName") {
        Ok(x) => x,
        Err(e) => {
            return Err(e);
        },
    };
    let y = match src.boolean("Service", "RemainAfterExit", false) {
        Ok(x) => x,
        Err(e) => {
            return Err(e);
        },
    };
    Ok((a, b, y))
}

/// The commands of a service.
#[verifier::ext_equal]
pub ghost struct Commands {
    pub start_pre: Seq<CommandLine>,
    pub start: Seq<CommandLine>,
    pub start_post: Seq<CommandLine>,
    pub stop: Seq<CommandLine>,
    pub reload: Seq<CommandLine>,
}

struct CommandLists {
    start_pre: Vec<ExecCommand>,
    start: Vec<ExecCommand>,
    start_post: Vec<ExecCommand>,
    stop: Vec<ExecCommand>,
    reload: Vec<ExecCommand>,
}

impl CommandLists {
    spec fn lists(self) -> Commands {
        Commands {
            start_pre: views(self.start_pre@),
            start: views(self.start@),
            start_post: views(self.start_post@),
            stop: views(self.stop@),
            reload: views(self.reload@),
        }
    }
}

/// `ExecStartPre=` to `ExecReload=`.
pub open spec fn command_part(d: Document, c: Specifiers) -> Result<Commands, Text> {
    match (
        gathered(settings(d, c, "Service"@, "ExecStartPre"@), command_item()),
        gathered(settings(d, c, "Service"@, "ExecStart"@), command_item()),
        gathered(settings(d, c, "Service"@, "ExecStartPost"@), command_item()),
        gathered(settings(d, c, "Service"@, "ExecStop"@), command_item()),
        gathered(settings(d, c, "Service"@, "ExecReload"@), command_item()),
    ) {
        (Err(e), _, _, _, _) => Err(e),
        (Ok(_), Err(e), _, _, _) => Err(e),
        (Ok(_), Ok(_), Err(e), _, _) => Err(e),
        (Ok(_), Ok(_), Ok(_), Err(e), _) => Err(e),
        (Ok(_), Ok(_), Ok(_), Ok(_), Err(e)) => Err(e),
        (Ok(start_pre), Ok(start), Ok(start_post), Ok(stop), Ok(reload)) => Ok(
            Commands { start_pre, start, start_post, stop, reload },
        ),
    }
}

fn build_commands(src: &Source) -> (r: Result<CommandLists, String>)
    ensures
        match r {
            Ok(v) => command_part(src.doc(), src.ctx()) == Ok::<Commands, Text>(v.lists()),
            Err(e) => command_part(src.doc(), src.ctx()) == Err::<Commands, Text>(e@),
        },
{
    let start_pre = match src.commands("ExecStartPre") {
        Ok(x) => x,
        Err(e) => {
            return Err(e);
        },
    };
    let start = match src.commands("ExecStart") {
        Ok(x) => x,
        Err(e) => {
            return Err(e);
        },
    };
    let start_post = match src.commands("ExecStartPost") {
        Ok(x) => x,
        Err(e) => {
            return Err(e);
        },
    };
    let stop = match src.commands("ExecStop") {
        Ok(x) => x,
        Err(e) => {
            return Err(e);
        },
    };
    let reload = match src.commands("ExecReload") {
        Ok(x) => x,
        Err(e) => {
            return Err(e);
        },
    };
    Ok(CommandLists { start_pre, start, start_post, stop, reload })
}

/// `Restart=`, `RestartSec=` and the timeouts.
pub open spec fn restart_part(d: Document, c: Specifiers) -> Result<
    (RestartPolicy, nat, nat, nat),
    Text,
> {
    match (
        restart_of(setting(d, c, "Service"@, "Restart"@)),
        span_setting(setting(d, c, "Service"@, "RestartSec"@), 100_000),
        span_setting(setting(d, c, "Service"@, "TimeoutStartSec"@), 90_000_000),
        span_setting(setting(d, c, "Service"@, "TimeoutStopSec"@), 90_000_000),
    ) {
        (Err(e), _, _, _) => Err(e),
        (Ok(_), Err(e), _, _) => Err(e),
        (Ok(_), Ok(_), Err(e), _) => Err(e),
        (Ok(_), Ok(_), Ok(_), Err(e)) => Err(e),
        (Ok(a), Ok(b), Ok(x), Ok(y)) => Ok((a, b, x, y)),
    }
}

fn build_restart(src: &Source) -> (r: Result<
    (RestartPolicy, TimeSpan, TimeSpan, TimeSpan),
    String,
>)
    ensures
        match r {
            Ok((a, b, x, y)) => restart_part(src.doc(), src.ctx()) == Ok::<
                (RestartPolicy, nat, nat, nat),
                Text,
            >((a, b.usec as nat, x.usec as nat, y.usec as nat)),
            Err(e) => restart_part(src.doc(), src.ctx()) == Err::<
                (RestartPolicy, nat, nat, nat),
                Text,
            >(e@),
        },
{
    let a = match parse_restart(src.scalar("Service", "Restart")) {
        Ok(x) => x,
        Err(e) => {
            return Err(e);
        },
    };
    let b = match src.span("Service", "RestartSec", 100_000) {
        Ok(x) => x,
        Err(e) => {
            return Err(e);
        },
    };
    let y = match src.span("Service", "TimeoutStartSec", 90_000_000) {
        Ok(x) => x,
        Err(e) => {
            return Err(e);
        },
    };
    let z = match src.span("Service", "TimeoutStopSec", 90_000_000) {
        Ok(x) => x,
        Err(e) => {
            return Err(e);
        },
    };
    Ok((a, b, y, z))
}

/// `Nice=`; the message quotes the value as it was written.
pub open spec fn nice_of(d: Document, c: Specifiers) -> Result<Option<int>, Text> {
    match value(d, "Service"@, "Nice"@) {
        None => Ok(None),
        Some(v) => match signed32(specified(c, v)) {
            Some(n) => Ok(Some(n)),
            None => Err("invalid Nice `"@ + v + "`"@),
        },
    }
}

/// `UMask=`.
pub open spec fn umask_of(v: Option<Text>) -> Result<Option<u32>, Text> {
    match v {
        None => Ok(None),
        Some(t) => match octal_of(t) {
            Ok(n) => Ok(Some(n)),
            Err(e) => Err(e),
        },
    }
}

/// What a service runs with.
#[verifier::ext_equal]
pub ghost struct Surroundings {
    pub environment: Seq<(Text, Text)>,
    pub environment_files: Seq<(Text, bool)>,
    pub working_directory: Option<(Text, bool)>,
    pub user: Option<Text>,
    pub group: Option<Text>,
    pub nice: Option<int>,
    pub umask: Option<u32>,
}

struct SurroundingParts {
    environment: Vec<(String, String)>,
    environment_files: Vec<(String, bool)>,
    working_directory: Option<(String, bool)>,
    user: Option<String>,
    group: Option<String>,
    nice: Option<i32>,
    umask: Option<u32>,
}

impl SurroundingParts {
    spec fn parts(self) -> Surroundings {
        Surroundings {
            environment: pairs_view(self.environment@),
            environment_files: flagged_view(self.environment_files@),
            working_directory: opt_flagged(self.working_directory),
            user: opt_text(self.user),
            group: opt_text(self.group),
            nice: opt_number(self.nice),
            umask: self.umask,
        }
    }
}

pub open spec fn opt_path(v: Option<Text>) -> Option<(Text, bool)> {
    match v {
        Some(t) => Some(optional_path(t)),
        None => None,
    }
}

/// `Environment=` to `UMask=`.
pub open spec fn surrounding_part(d: Document, c: Specifiers) -> Result<Surroundings, Text> {
    match (
        gathered(settings(d, c, "Service"@, "Environment"@), assignment_item()),
        gathered(settings(d, c, "Service"@, "EnvironmentFile"@), file_item()),
        nice_of(d, c),
        umask_of(setting(d, c, "Service"@, "UMask"@)),
    ) {
        (Err(e), _, _, _) => Err(e),
        (Ok(_), Err(e), _, _) => Err(e),
        (Ok(_), Ok(_), Err(e), _) => Err(e),
        (Ok(_), Ok(_), Ok(_), Err(e)) => Err(e),
        (Ok(environment), Ok(environment_files), Ok(nice), Ok(umask)) => Ok(
            Surroundings {
                environment,
                environment_files,
                working_directory: opt_path(setting(d, c, "Service"@, "WorkingDirectory"@)),
                user: setting(d, c, "Service"@, "User"@),
                group: setting(d, c, "Service"@, "Group"@),
                nice,
                umask,
            },
        ),
    }
}

fn build_surroundings(src: &Source) -> (r: Result<SurroundingParts, String>)
    ensures
        match r {
            Ok(v) => surrounding_part(src.doc(), src.ctx()) == Ok::<Surroundings, Text>(v.parts()),
            Err(e) => surrounding_part(src.doc(), src.ctx()) == Err::<Surroundings, Text>(e@),
        },
{
    let environment = match src.environment() {
        Ok(x) => x,
        Err(e) => {
            return Err(e);
        },
    };
    let environment_files = match src.environment_files() {
        Ok(x) => x,
        Err(e) => {
            return Err(e);
        },
    };
    let working_directory = match src.scalar("Service", "WorkingDirectory") {
        Some(v) => Some(read_optional_path(v.as_str())),
        None => None,
    };
    let user = src.scalar("Service", "User");
    let group = src.scalar("Service", "Group");
    let nice = match src.raw_scalar("Service", "Nice") {
        None => None,
        Some(v) => {
            let expanded = src.spec_context.expand(v.as_str());
            match parse_i32(expanded.as_str()) {
                Some(n) => Some(n),
                None => {
                    return Err(cat3("invalid Nice `", v.as_str(), "`"));
                },
            }
        },
    };
    let umask = match src.scalar("Service", "UMask") {
        None => None,
        Some(v) => match parse_octal(v.as_str()) {
            Ok(n) => Some(n),
            Err(e) => {
                return Err(e);
            },
        },
    };
    Ok(
        SurroundingParts {
            environment,
            environment_files,
            working_directory,
            user,
            group,
            nice,
            umask,
        },
    )
}

/// `KillSignal=`: the first word counts; the message quotes the value as it was
/// written.
pub open spec fn kill_signal_of(d: Document, c: Specifiers) -> Result<Option<int>, Text> {
    match value(d, "Service"@, "KillSignal"@) {
        None => Ok(None),
        Some(v) => {
            let w = words(specified(c, v));
            let bad = "invalid KillSignal `"@ + v + "`"@;
            if w.len() == 0 {
                Err(bad)
            } else {
                match signal_of(w[0]) {
                    Some(n) => Ok(Some(n)),
                    None => Err(bad),
                }
            }
        },
    }
}

fn parse_kill_signal(src: &Source) -> (r: Result<Option<Signal>, String>)
    ensures
        match r {
            Ok(v) => kill_signal_of(src.doc(), src.ctx()) == Ok::<Option<int>, Text>(
                opt_signal(v),
            ),
            Err(e) => kill_signal_of(src.doc(), src.ctx()) == Err::<Option<int>, Text>(e@),
        },
{
    match src.raw_scalar("Service", "KillSignal") {
        None => Ok(None),
        Some(v) => {
            let expanded = src.spec_context.expand(v.as_str());
            let w = split_words(expanded.as_str());
            if w.len() > 0 {
                assert(texts(w@)[0] == w@[0]@);
                match sig_from_name(w[0].as_str()) {
                    Some(g) => {
                        return Ok(Some(g));
                    },
                    None => {},
                }
            }
            Err(cat3("invalid KillSignal `", v.as_str(), "`"))
        },
    }
}

/// `KillMode=`.
pub open spec fn kill_mode_of(v: Option<Text>) -> Result<KillMode, Text> {
    match v {
        None => Ok(KillMode::ControlGroup),
        Some(t) => {
            let l = lower(t);
            if l == "control-group"@ || l == "mixed"@ || l == "none"@ {
                Ok(KillMode::ControlGroup)
            } else if l == "process"@ {
                Ok(KillMode::Process)
            } else {
                Err("unsupported KillMode `"@ + l + "`"@)
            }
        },
    }
}

fn parse_kill_mode(v: Option<String>) -> (r: Result<KillMode, String>)
    ensures
        plain_result(r) == kill_mode_of(opt_text(v)),
{
    match v {
        None => Ok(KillMode::ControlGroup),
        Some(t) => {
            let lowered = to_lower(t.as_str());
            let l = lowered.as_str();
            if same(l, "control-group") || same(l, "mixed") || same(l, "none") {
                Ok(KillMode::ControlGroup)
            } else if same(l, "process") {
                Ok(KillMode::Process)
            } else {
                Err(cat3("unsupported KillMode `", l, "`"))
            }
        },
    }
}

/// `SuccessExitStatus=`.
pub open spec fn success_of(v: Option<Text>) -> Result<Option<Statuses>, Text> {
    match v {
        None => Ok(None),
        Some(t) => match exit_statuses(t) {
            Ok(s) => Ok(Some(s)),
            Err(e) => Err(e),
        },
    }
}

/// `KillSignal=` to `PIDFile=`.
pub open spec fn kill_part(d: Document, c: Specifiers) -> Result<
    (Option<int>, KillMode, bool, Option<Statuses>, Option<Text>),
    Text,
> {
    match (
        kill_signal_of(d, c),
        kill_mode_of(setting(d, c, "Service"@, "KillMode"@)),
        bool_setting(setting(d, c, "Service"@, "SendSIGKILL"@), true),
        success_of(setting(d, c, "Service"@, "SuccessExitStatus"@)),
        unquoted_setting(setting(d, c, "Service"@, "PIDFile"@)),
    ) {
        (Err(e), _, _, _, _) => Err(e),
        (Ok(_), Err(e), _, _, _) => Err(e),
        (Ok(_), Ok(_), Err(e), _, _) => Err(e),
        (Ok(_), Ok(_), Ok(_), Err(e), _) => Err(e),
        (Ok(_), Ok(_), Ok(_), Ok(_), Err(e)) => Err(e),
        (Ok(a), Ok(b), Ok(x), Ok(y), Ok(z)) => Ok((a, b, x, y, z)),
    }
}

fn build_kill(src: &Source) -> (r: Result<
    (Option<Signal>, KillMode, bool, Option<ExitCodeSet>, Option<String>),
    String,
>)
    ensures
        match r {
            Ok((a, b, x, y, z)) => kill_part(src.doc(), src.ctx()) == Ok::<
                (Option<int>, KillMode, bool, Option<Statuses>, Option<Text>),
                Text,
            >((opt_signal(a), b, x, opt_statuses(y), opt_text(z))),
            Err(e) => kill_part(src.doc(), src.ctx()) == Err::<
                (Option<int>, KillMode, bool, Option<Statuses>, Option<Text>),
                Text,
            >(e@),
        },
{
    let a = match parse_kill_signal(src) {
        Ok(x) => x,
        Err(e) => {
            return Err(e);
        },
    };
    let b = match parse_kill_mode(src.scalar("Service", "KillMode")) {
        Ok(x) => x,
        Err(e) => {
            return Err(e);
        },
    };
    let send = match src.boolean("Service", "SendSIGKILL", true) {
        Ok(x) => x,
        Err(e) => {
            return Err(e);
        },
    };
    let y = match src.scalar("Service", "SuccessExitStatus") {
        None => None,
        Some(v) => match parse_exit_status(v.as_str()) {
            Ok(s) => Some(s),
            Err(e) => {
                return Err(e);
            },
        },
    };
    let z = match src.unquoted_scalar("Service", "PIDFile") {
        Ok(x) => x,
        Err(e) => {
            return Err(e);
        },
    };
    Ok((a, b, send, y, z))
}

/// `LimitNOFILE=` to `LimitAS=`, one behind the other.
pub open spec fn rlimit_part(d: Document, c: Specifiers) -> Result<Seq<Rlimit>, Text> {
    match (
        gathered(settings(d, c, "Service"@, "LimitNOFILE"@), limit_item(RlimitResource::NoFile)),
        gathered(settings(d, c, "Service"@, "LimitNPROC"@), limit_item(RlimitResource::NProc)),
        gathered(settings(d, c, "Service"@, "LimitCORE"@), limit_item(RlimitResource::Core)),
        gathered(settings(d, c, "Service"@, "LimitAS"@), limit_item(RlimitResource::AddressSpace)),
    ) {
        (Err(e), _, _, _) => Err(e),
        (Ok(_), Err(e), _, _) => Err(e),
        (Ok(_), Ok(_), Err(e), _) => Err(e),
        (Ok(_), Ok(_), Ok(_), Err(e)) => Err(e),
        (Ok(a), Ok(b), Ok(x), Ok(y)) => Ok(a + b + x + y),
    }
}

fn build_rlimits(src: &Source) -> (r: Result<Vec<Rlimit>, String>)
    ensures
        match r {
            Ok(v) => rlimit_part(src.doc(), src.ctx()) == Ok::<Seq<Rlimit>, Text>(v@),
            Err(e) => rlimit_part(src.doc(), src.ctx()) == Err::<Seq<Rlimit>, Text>(e@),
        },
{
    let mut a = match src.limits("LimitNOFILE", RlimitResource::NoFile) {
        Ok(x) => x,
        Err(e) => {
            return Err(e);
        },
    };
    let mut b = match src.limits("LimitNPROC", RlimitResource::NProc) {
        Ok(x) => x,
        Err(e) => {
            return Err(e);
        },
    };
    let mut y = match src.limits("LimitCORE", RlimitResource::Core) {
        Ok(x) => x,
        Err(e) => {
            return Err(e);
        },
    };
    let mut z = match src.limits("LimitAS", RlimitResource::AddressSpace) {
        Ok(x) => x,
        Err(e) => {
            return Err(e);
        },
    };
    a.append(&mut b);
    a.append(&mut y);
    a.append(&mut z);
    Ok(a)
}

/// A size, where it is set.
pub open spec fn size_setting(v: Option<Text>) -> Result<Option<u64>, Text> {
    match v {
        None => Ok(None),
        Some(t) => match bytes_of(t) {
            Ok(n) => Ok(Some(n)),
            Err(e) => Err(e),
        },
    }
}

/// `CPUWeight=`: from 1 to 10000. The messages quote the value as it was
/// written.
pub open spec fn cpu_weight_of(d: Document, c: Specifiers) -> Result<Option<u32>, Text> {
    match value(d, "Service"@, "CPUWeight"@) {
        None => Ok(None),
        Some(v) => match number(trimmed(specified(c, v)), 10, u32::MAX as nat) {
            None => Err("invalid CPUWeight `"@ + v + "`"@),
            Some(w) => if w == 0 || w > 10000 {
                Err("CPUWeight out of range 1..=10000: `"@ + v + "`"@)
            } else {
                Ok(Some(w as u32))
            },
        },
    }
}

/// `TasksMax=`. The message quotes the value as it was written.
pub open spec fn tasks_max_of(d: Document, c: Specifiers) -> Result<Option<u64>, Text> {
    match value(d, "Service"@, "TasksMax"@) {
        None => Ok(None),
        Some(v) => {
            let t = trimmed(specified(c, v));
            if lower(t) == lower("infinity"@) {
                Ok(Some(u64::MAX))
            } else {
                match number(t, 10, u64::MAX as nat) {
                    Some(n) => Ok(Some(n as u64)),
                    None => Err("invalid TasksMax `"@ + v + "`"@),
                }
            }
        },
    }
}

/// `MemoryMax=` to `TasksMax=`.
pub open spec fn cgroup_part(d: Document, c: Specifiers) -> Result<CgroupLimits, Text> {
    match (
        size_setting(setting(d, c, "Service"@, "MemoryMax"@)),
        size_setting(setting(d, c, "Service"@, "MemoryHigh"@)),
        cpu_weight_of(d, c),
        tasks_max_of(d, c),
    ) {
        (Err(e), _, _, _) => Err(e),
        (Ok(_), Err(e), _, _) => Err(e),
        (Ok(_), Ok(_), Err(e), _) => Err(e),
        (Ok(_), Ok(_), Ok(_), Err(e)) => Err(e),
        (Ok(memory_max), Ok(memory_high), Ok(cpu_weight), Ok(tasks_max)) => Ok(
            CgroupLimits { memory_max, memory_high, cpu_weight, tasks_max },
        ),
    }
}

fn parse_size(v: Option<String>) -> (r: Result<Option<u64>, String>)
    ensures
        plain_result(r) == size_setting(opt_text(v)),
{
    match v {
        None => Ok(None),
        Some(t) => match parse_bytes(t.as_str()) {
            Ok(n) => Ok(Some(n)),
            Err(e) => Err(e),
        },
    }
}

fn build_cgroup(src: &Source) -> (r: Result<CgroupLimits, String>)
    ensures
        plain_result(r) == cgroup_part(src.doc(), src.ctx()),
{
    let memory_max = match parse_size(src.scalar("Service", "MemoryMax")) {
        Ok(x) => x,
        Err(e) => {
            return Err(e);
        },
    };
    let memory_high = match parse_size(src.scalar("Service", "MemoryHigh")) {
        Ok(x) => x,
        Err(e) => {
            return Err(e);
        },
    };
    let cpu_weight = match src.raw_scalar("Service", "CPUWeight") {
        None => None,
        Some(v) => {
            let expanded = src.spec_context.expand(v.as_str());
            match parse_number(trim(expanded.as_str()), 10, 0xffff_ffff) {
                None => {
                    return Err(cat3("invalid CPUWeight `", v.as_str(), "`"));
                },
                Some(w) => {
                    if w == 0 || w > 10000 {
                        return Err(
                            cat3("CPUWeight out of range 1..=10000: `", v.as_str(), "`"),
                        );
                    }
                    Some(w as u32)
                },
            }
        },
    };
    let tasks_max = match src.raw_scalar("Service", "TasksMax") {
        None => None,
        Some(v) => {
            let expanded = src.spec_context.expand(v.as_str());
            let t = trim(expanded.as_str());
            if same_ignore_case(t, "infinity") {
                Some(u64::MAX)
            } else {
                match parse_number(t, 10, u64::MAX) {
                    Some(n) => Some(n),
                    None => {
                        return Err(cat3("invalid TasksMax `", v.as_str(), "`"));
                    },
                }
            }
        },
    };
    Ok(CgroupLimits { memory_max, memory_high, cpu_weight, tasks_max })
}

/// A stream, where it is set; else the log.
pub open spec fn stdio_setting(v: Option<Text>) -> Result<Stdio, Text> {
    match v {
        None => Ok(Stdio::Journal),
        Some(t) => stdio_of(t),
    }
}

/// `StandardInput=`: whether it is inherited.
pub open spec fn stdin_of(v: Option<Text>) -> Result<bool, Text> {
    match v {
        None => Ok(false),
        Some(t) => {
            let l = lower(t);
            if l == "null"@ || l == "data"@ {
                Ok(false)
            } else if l == "inherit"@ || l == "tty"@ {
                Ok(true)
            } else {
                Err("unsupported StandardInput `"@ + l + "`"@)
            }
        },
    }
}

fn parse_stdin(v: Option<String>) -> (r: Result<bool, String>)
    ensures
        plain_result(r) == stdin_of(opt_text(v)),
{
    match v {
        None => Ok(false),
        Some(t) => {
            let lowered = to_lower(t.as_str());
            let l = lowered.as_str();
            if same(l, "null") || same(l, "data") {
                Ok(false)
            } else if same(l, "inherit") || same(l, "tty") {
                Ok(true)
            } else {
                Err(cat3("unsupported StandardInput `", l, "`"))
            }
        },
    }
}

/// `StandardOutput=`, `StandardError=` and `StandardInput=`.
pub open spec fn stream_part(d: Document, c: Specifiers) -> Result<(Stdio, Stdio, bool), Text> {
    match (
        stdio_setting(setting(d, c, "Service"@, "StandardOutput"@)),
        stdio_setting(setting(d, c, "Service"@, "StandardError"@)),
        stdin_of(setting(d, c, "Service"@, "StandardInput"@)),
    ) {
        (Err(e), _, _) => Err(e),
        (Ok(_), Err(e), _) => Err(e),
        (Ok(_), Ok(_), Err(e)) => Err(e),
        (Ok(a), Ok(b), Ok(x)) => Ok((a, b, x)),
    }
}

fn parse_stream(v: Option<String>) -> (r: Result<StdioTarget, String>)
    ensures
        stdio_result(r) == stdio_setting(opt_text(v)),
{
    match v {
        None => Ok(StdioTarget::Journal),
        Some(t) => parse_stdio(t.as_str()),
    }
}

fn build_streams(src: &Source) -> (r: Result<(StdioTarget, StdioTarget, bool), String>)
    ensures
        match r {
            Ok((a, b, x)) => stream_part(src.doc(), src.ctx()) == Ok::<
                (Stdio, Stdio, bool),
                Text,
            >((a@, b@, x)),
            Err(e) => stream_part(src.doc(), src.ctx()) == Err::<(Stdio, Stdio, bool), Text>(e@),
        },
{
    let a = match parse_stream(src.scalar("Service", "StandardOutput")) {
        Ok(x) => x,
        Err(e) => {
            return Err(e);
        },
    };
    let b = match parse_stream(src.scalar("Service", "StandardError")) {
        Ok(x) => x,
        Err(e) => {
            return Err(e);
        },
    };
    let y = match parse_stdin(src.scalar("Service", "StandardInput")) {
        Ok(x) => x,
        Err(e) => {
            return Err(e);
        },
    };
    Ok((a, b, y))
}

/// `[Service]`: all its settings, or the first one that is wrong.
pub open spec fn service_of(d: Document, c: Specifiers) -> Result<ServiceSettings, Text> {
    match (
        kind_part(d, c),
        command_part(d, c),
        restart_part(d, c),
        surrounding_part(d, c),
        kill_part(d, c),
        rlimit_part(d, c),
        cgroup_part(d, c),
        stream_part(d, c),
    ) {
        (Err(e), _, _, _, _, _, _, _) => Err(e),
        (Ok(_), Err(e), _, _, _, _, _, _) => Err(e),
        (Ok(_), Ok(_), Err(e), _, _, _, _, _) => Err(e),
        (Ok(_), Ok(_), Ok(_), Err(e), _, _, _, _) => Err(e),
        (Ok(_), Ok(_), Ok(_), Ok(_), Err(e), _, _, _) => Err(e),
        (Ok(_), Ok(_), Ok(_), Ok(_), Ok(_), Err(e), _, _) => Err(e),
        (Ok(_), Ok(_), Ok(_), Ok(_), Ok(_), Ok(_), Err(e), _) => Err(e),
        (Ok(_), Ok(_), Ok(_), Ok(_), Ok(_), Ok(_), Ok(_), Err(e)) => Err(e),
        (Ok(k), Ok(cmd), Ok(r), Ok(sur), Ok(kill), Ok(rlimits), Ok(cgroup_limits), Ok(io)) => Ok(
            ServiceSettings {
                service_type: k.0,
                remain_after_exit: k.2,
                exec_start_pre: cmd.start_pre,
                exec_start: cmd.start,
                exec_start_post: cmd.start_post,
                exec_stop: cmd.stop,
                exec_reload: cmd.reload,
                restart: r.0,
                restart_sec: r.1,
                timeout_start_sec: r.2,
                timeout_stop_sec: r.3,
                environment: sur.environment,
                environment_files: sur.environment_files,
                working_directory: sur.working_directory,
                user: sur.user,
                group: sur.group,
                nice: sur.nice,
                umask: sur.umask,
                kill_signal: kill.0,
                kill_mode: kill.1,
                send_sigkill: kill.2,
                success_exit_status: kill.3,
                pid_file: kill.4,
                bus_name: k.1,
                rlimits,
                cgroup_limits,
                std_output: io.0,
                std_error: io.1,
                std_input: io.2,
            },
        ),
    }
}

fn build_service(src: &Source) -> (r: Result<ServiceConfig, String>)
    ensures
        match r {
            Ok(cfg) => service_of(src.doc(), src.ctx()) == Ok::<ServiceSettings, Text>(cfg@),
            Err(e) => service_of(src.doc(), src.ctx()) == Err::<ServiceSettings, Text>(e@),
        },
{
    let (service_type, bus_name, remain_after_exit) = match build_kind(src) {
        Ok(x) => x,
        Err(e) => {
            return Err(e);
        },
    };
    let cmd = match build_commands(src) {
        Ok(x) => x,
        Err(e) => {
            return Err(e);
        },
    };
    let (restart, restart_sec, timeout_start_sec, timeout_stop_sec) = match build_restart(src) {
        Ok(x) => x,
        Err(e) => {
            return Err(e);
        },
    };
    let sur = match build_surroundings(src) {
        Ok(x) => x,
        Err(e) => {
            return Err(e);
        },
    };
    let (kill_signal, kill_mode, send_sigkill, success_exit_status, pid_file) = match build_kill(src) {
        Ok(x) => x,
        Err(e) => {
            return Err(e);
        },
    };
    let rlimits = match build_rlimits(src) {
        Ok(x) => x,
        Err(e) => {
            return Err(e);
        },
    };
    let cgroup_limits = match build_cgroup(src) {
        Ok(x) => x,
        Err(e) => {
            return Err(e);
        },
    };
    let (std_output, std_error, std_input) = match build_streams(src) {
        Ok(x) => x,
        Err(e) => {
            return Err(e);
        },
    };
    Ok(
        ServiceConfig {
            service_type,
            remain_after_exit,
            exec_start_pre: cmd.start_pre,
            exec_start: cmd.start,
            exec_start_post: cmd.start_post,
            exec_stop: cmd.stop,
            exec_reload: cmd.reload,
            restart,
            restart_sec,
            timeout_start_sec,
            timeout_stop_sec,
            environment: sur.environment,
            environment_files: sur.environment_files,
            working_directory: sur.working_directory,
            user: sur.user,
            group: sur.group,
            nice: sur.nice,
            umask: sur.umask,
            kill_signal,
            kill_mode,
            send_sigkill,
            success_exit_status,
            pid_file,
            bus_name,
            rlimits,
            cgroup_limits,
            std_output,
            std_error,
            std_input,
        },
    )
}

// ---- [Timer], [Socket] and [Mount] ----------------------------------------------

/// `[Timer]`: all its settings, or the first one that is wrong.
pub open spec fn timer_of(d: Document, c: Specifiers) -> Result<TimerSettings, Text> {
    match (
        gathered(settings(d, c, "Timer"@, "OnCalendar"@), calendar_item()),
        gathered(settings(d, c, "Timer"@, "OnBootSec"@), span_item()),
        gathered(settings(d, c, "Timer"@, "OnStartupSec"@), span_item()),
        gathered(settings(d, c, "Timer"@, "OnUnitActiveSec"@), span_item()),
        gathered(settings(d, c, "Timer"@, "OnUnitInactiveSec"@), span_item()),
        bool_setting(setting(d, c, "Timer"@, "Persistent"@), false),
        span_setting(setting(d, c, "Timer"@, "AccuracySec"@), 60_000_000),
        span_setting(setting(d, c, "Timer"@, "RandomizedDelaySec"@), 0),
        bool_setting(setting(d, c, "Timer"@, "RemainAfterElapse"@), false),
    ) {
        (Err(e), _, _, _, _, _, _, _, _) => Err(e),
        (Ok(_), Err(e), _, _, _, _, _, _, _) => Err(e),
        (Ok(_), Ok(_), Err(e), _, _, _, _, _, _) => Err(e),
        (Ok(_), Ok(_), Ok(_), Err(e), _, _, _, _, _) => Err(e),
        (Ok(_), Ok(_), Ok(_), Ok(_), Err(e), _, _, _, _) => Err(e),
        (Ok(_), Ok(_), Ok(_), Ok(_), Ok(_), Err(e), _, _, _) => Err(e),
        (Ok(_), Ok(_), Ok(_), Ok(_), Ok(_), Ok(_), Err(e), _, _) => Err(e),
        (Ok(_), Ok(_), Ok(_), Ok(_), Ok(_), Ok(_), Ok(_), Err(e), _) => Err(e),
        (Ok(_), Ok(_), Ok(_), Ok(_), Ok(_), Ok(_), Ok(_), Ok(_), Err(e)) => Err(e),
        (Ok(on_calendar), Ok(on_boot_sec), Ok(on_startup_sec), Ok(on_active_sec), Ok(on_inactive_sec), Ok(persistent), Ok(accuracy_sec), Ok(randomized_delay_sec), Ok(remain_after_elapse)) => Ok(
            TimerSettings {
                on_calendar,
                on_boot_sec,
                on_startup_sec,
                on_active_sec,
                on_inactive_sec,
                persistent,
                accuracy_sec,
                randomized_delay_sec,
                unit: setting(d, c, "Timer"@, "Unit"@),
                remain_after_elapse,
                wake_system: false,
            },
        ),
    }
}

fn build_timer(src: &Source) -> (r: Result<TimerConfig, String>)
    ensures
        match r {
            Ok(cfg) => timer_of(src.doc(), src.ctx()) == Ok::<TimerSettings, Text>(cfg@),
            Err(e) => timer_of(src.doc(), src.ctx()) == Err::<TimerSettings, Text>(e@),
        },
{
    let on_calendar = match src.calendars("Timer", "OnCalendar") {
        Ok(x) => x,
        Err(e) => {
            return Err(e);
        },
    };
    let on_boot_sec = match src.spans("Timer", "OnBootSec") {
        Ok(x) => x,
        Err(e) => {
            return Err(e);
        },
    };
    let on_startup_sec = match src.spans("Timer", "OnStartupSec") {
        Ok(x) => x,
        Err(e) => {
            return Err(e);
        },
    };
    let on_active_sec = match src.spans("Timer", "OnUnitActiveSec") {
        Ok(x) => x,
        Err(e) => {
            return Err(e);
        },
    };
    let on_inactive_sec = match src.spans("Timer", "OnUnitInactiveSec") {
        Ok(x) => x,
        Err(e) => {
            return Err(e);
        },
    };
    let persistent = match src.boolean("Timer", "Persistent", false) {
        Ok(x) => x,
        Err(e) => {
            return Err(e);
        },
    };
    let accuracy_sec = match src.span("Timer", "AccuracySec", 60_000_000) {
        Ok(x) => x,
        Err(e) => {
            return Err(e);
        },
    };
    let randomized_delay_sec = match src.span("Timer", "RandomizedDelaySec", 0) {
        Ok(x) => x,
        Err(e) => {
            return Err(e);
        },
    };
    let unit = src.scalar("Timer", "Unit");
    let remain_after_elapse = match src.boolean("Timer", "RemainAfterElapse", false) {
        Ok(x) => x,
        Err(e) => {
            return Err(e);
        },
    };
    Ok(
        TimerConfig {
            on_calendar,
            on_boot_sec,
            on_startup_sec,
            on_active_sec,
            on_inactive_sec,
            persistent,
            accuracy_sec,
            randomized_delay_sec,
            unit,
            remain_after_elapse,
            wake_system: false,
        },
    )
}

/// `[Socket]`.
pub open spec fn socket_of(d: Document, c: Specifiers) -> Result<SocketSettings, Text> {
    match bool_setting(setting(d, c, "Socket"@, "Accept"@), false) {
        Err(e) => Err(e),
        Ok(accept) => Ok(
            SocketSettings {
                listen_stream: name_list(d, c, "Socket"@, "ListenStream"@),
                accept,
                service: setting(d, c, "Socket"@, "Service"@),
            },
        ),
    }
}

fn build_socket(src: &Source) -> (r: Result<SocketConfig, String>)
    ensures
        match r {
            Ok(cfg) => socket_of(src.doc(), src.ctx()) == Ok::<SocketSettings, Text>(cfg@),
            Err(e) => socket_of(src.doc(), src.ctx()) == Err::<SocketSettings, Text>(e@),
        },
{
    let accept = match src.boolean("Socket", "Accept", false) {
        Ok(x) => x,
        Err(e) => {
            return Err(e);
        },
    };
    Ok(
        SocketConfig {
            listen_stream: src.names("Socket", "ListenStream"),
            accept,
            service: src.scalar("Socket", "Service"),
        },
    )
}

/// The mount point: what `Where=` says, else what the unit's name says.
pub open spec fn where_of(d: Document, c: Specifiers) -> Result<Option<Text>, Text> {
    match setting(d, c, "Mount"@, "Where"@) {
        Some(v) => match unquoted(v) {
            Ok(t) => Ok(Some(t)),
            Err(e) => Err(e),
        },
        None => Ok(mount_path(c.unit_name)),
    }
}

/// `[Mount]`.
pub open spec fn mount_of(d: Document, c: Specifiers) -> Result<MountSettings, Text> {
    match where_of(d, c) {
        Err(e) => Err(e),
        Ok(where_) => Ok(
            MountSettings {
                what: setting(d, c, "Mount"@, "What"@),
                where_,
                fs_type: setting(d, c, "Mount"@, "Type"@),
                options: setting(d, c, "Mount"@, "Options"@),
            },
        ),
    }
}

fn build_mount(src: &Source) -> (r: Result<MountConfig, String>)
    ensures
        match r {
            Ok(cfg) => mount_of(src.doc(), src.ctx()) == Ok::<MountSettings, Text>(cfg@),
            Err(e) => mount_of(src.doc(), src.ctx()) == Err::<MountSettings, Text>(e@),
        },
{
    let where_ = match src.scalar("Mount", "Where") {
        Some(v) => match unquote_scalar(v.as_str()) {
            Ok(t) => Some(t),
            Err(e) => {
                return Err(e);
            },
        },
        None => mount_path_from_unit_name(src.spec_context.unit_name.as_str()),
    };
    Ok(
        MountConfig {
            what: src.scalar("Mount", "What"),
            where_,
            fs_type: src.scalar("Mount", "Type"),
            options: src.scalar("Mount", "Options"),
        },
    )
}

// ---- the whole unit file --------------------------------------------------------

/// `Description=`; empty where it is not set.
pub open spec fn description_of(v: Option<Text>) -> Result<Text, Text> {
    match v {
        Some(t) => unquoted(t),
        None => Ok(seq![]),
    }
}

/// `[Unit]`.
pub open spec fn unit_of(d: Document, c: Specifiers) -> Result<UnitSettings, Text> {
    match (
        description_of(setting(d, c, "Unit"@, "Description"@)),
        bool_setting(setting(d, c, "Unit"@, "DefaultDependencies"@), true),
    ) {
        (Err(e), _) => Err(e),
        (Ok(_), Err(e)) => Err(e),
        (Ok(description), Ok(default_dependencies)) => Ok(
            UnitSettings {
                description,
                after: name_list(d, c, "Unit"@, "After"@),
                before: name_list(d, c, "Unit"@, "Before"@),
                requires: name_list(d, c, "Unit"@, "Requires"@),
                requisite: name_list(d, c, "Unit"@, "Requisite"@),
                wants: name_list(d, c, "Unit"@, "Wants"@),
                conflicts: name_list(d, c, "Unit"@, "Conflicts"@),
                on_failure: name_list(d, c, "Unit"@, "OnFailure"@),
                part_of: name_list(d, c, "Unit"@, "PartOf"@),
                binds_to: name_list(d, c, "Unit"@, "BindsTo"@),
                default_dependencies,
                documentation: settings(d, c, "Unit"@, "Documentation"@),
            },
        ),
    }
}

fn build_unit(src: &Source) -> (r: Result<UnitConfig, String>)
    ensures
        match r {
            Ok(cfg) => unit_of(src.doc(), src.ctx()) == Ok::<UnitSettings, Text>(cfg@),
            Err(e) => unit_of(src.doc(), src.ctx()) == Err::<UnitSettings, Text>(e@),
        },
{
    let description = match src.scalar("Unit", "Description") {
        Some(v) => match unquote_scalar(v.as_str()) {
            Ok(t) => t,
            Err(e) => {
                return Err(e);
            },
        },
        None => String::new(),
    };
    let after = src.names("Unit", "After");
    let before = src.names("Unit", "Before");
    let requires_names = src.names("Unit", "Requires");
    let requisite = src.names("Unit", "Requisite");
    let wants = src.names("Unit", "Wants");
    let conflicts = src.names("Unit", "Conflicts");
    let on_failure = src.names("Unit", "OnFailure");
    let part_of = src.names("Unit", "PartOf");
    let binds_to = src.names("Unit", "BindsTo");
    let default_dependencies = match src.boolean("Unit", "DefaultDependencies", true) {
        Ok(x) => x,
        Err(e) => {
            return Err(e);
        },
    };
    Ok(
        UnitConfig {
            description,
            after,
            before,
            requires: requires_names,
            requisite,
            wants,
            conflicts,
            on_failure,
            part_of,
            binds_to,
            default_dependencies,
            documentation: src.list("Unit", "Documentation"),
        },
    )
}

/// `[Install]`.
pub open spec fn install_of(d: Document, c: Specifiers) -> InstallSettings {
    InstallSettings {
        wanted_by: name_list(d, c, "Install"@, "WantedBy"@),
        required_by: name_list(d, c, "Install"@, "RequiredBy"@),
        also: name_list(d, c, "Install"@, "Also"@),
        alias: name_list(d, c, "Install"@, "Alias"@),
    }
}

/// The specifiers of a unit of which nothing but the name is known.
pub open spec fn name_specifiers(unit_name: Text) -> Specifiers {
    Specifiers {
        unit_name,
        runtime_dir: seq![],
        user_name: seq![],
        uid: seq![],
        home: seq![],
        hostname: seq![],
        machine_id: seq![],
    }
}

/// The `[Install]` section by which a unit is enabled. Each value of `Also=`
/// and `Alias=` is one name.
pub open spec fn install_section_of(d: Document, unit_name: Text) -> InstallSettings {
    let c = name_specifiers(unit_name);
    InstallSettings {
        wanted_by: name_list(d, c, "Install"@, "WantedBy"@),
        required_by: name_list(d, c, "Install"@, "RequiredBy"@),
        also: settings(d, c, "Install"@, "Also"@),
        alias: settings(d, c, "Install"@, "Alias"@),
    }
}

/// The `[Install]` section by which a unit is enabled.
pub(crate) fn read_install_section(raw: &RawUnitFile, unit_name: &str) -> (r: InstallConfig)
    ensures
        r@ == install_section_of(raw@, unit_name@),
{
    let context = SpecifierContext {
        unit_name: owned(unit_name),
        runtime_dir: String::new(),
        user_name: String::new(),
        uid: String::new(),
        home: String::new(),
        hostname: String::new(),
        machine_id: String::new(),
    };
    let src = Source { raw, spec_context: &context };
    proof {
        assert(context@.runtime_dir =~= seq![]);
        assert(context@ == name_specifiers(unit_name@));
    }
    InstallConfig {
        wanted_by: src.names("Install", "WantedBy"),
        required_by: src.names("Install", "RequiredBy"),
        also: src.list("Install", "Also"),
        alias: src.list("Install", "Alias"),
    }
}

/// A unit file interpreted for the unit that the specifiers describe: the
/// section of the unit's kind, `[Unit]` and `[Install]`.
pub open spec fn file_of(d: Document, c: Specifiers) -> Result<FileSettings, Text> {
    match unit_of(d, c) {
        Err(e) => Err(e),
        Ok(unit) => {
            let bare = FileSettings {
                path: None,
                unit,
                service: None,
                timer: None,
                socket: None,
                mount: None,
                install: install_of(d, c),
            };
            match kind_of_name(c.unit_name) {
                None => Err("unsupported unit type in name `"@ + c.unit_name + "`"@),
                Some(UnitKind::Service) => match service_of(d, c) {
                    Ok(s) => Ok(FileSettings { service: Some(s), ..bare }),
                    Err(e) => Err(e),
                },
                Some(UnitKind::Timer) => match timer_of(d, c) {
                    Ok(t) => Ok(FileSettings { timer: Some(t), ..bare }),
                    Err(e) => Err(e),
                },
                Some(UnitKind::Socket) => match socket_of(d, c) {
                    Ok(s) => Ok(FileSettings { socket: Some(s), ..bare }),
                    Err(e) => Err(e),
                },
                Some(UnitKind::Mount) => match mount_of(d, c) {
                    Ok(m) => Ok(FileSettings { mount: Some(m), ..bare }),
                    Err(e) => Err(e),
                },
                Some(_) => Ok(bare),
            }
        },
    }
}

/// A result over a unit file, as specifications see it.
pub open spec fn file_result(r: Result<UnitFile, String>) -> Result<FileSettings, Text> {
    match r {
        Ok(f) => Ok(f@),
        Err(e) => Err(e@),
    }
}

/// Interpret the settings of a unit file, expanding specifiers.
pub fn build(raw: &RawUnitFile, spec_context: &SpecifierContext) -> (r: Result<UnitFile, String>)
    ensures
        file_result(r) == file_of(raw@, spec_context@),
{
    let src = Source { raw, spec_context };
    let unit = match build_unit(&src) {
        Ok(x) => x,
        Err(e) => {
            return Err(e);
        },
    };
    let install = InstallConfig {
        wanted_by: src.names("Install", "WantedBy"),
        required_by: src.names("Install", "RequiredBy"),
        also: src.names("Install", "Also"),
        alias: src.names("Install", "Alias"),
    };
    let mut file = UnitFile {
        path: None,
        unit,
        service: None,
        timer: None,
        socket: None,
        mount: None,
        install,
    };
    match UnitKind::from_unit_name(spec_context.unit_name.as_str()) {
        None => {
            return Err(
                cat3(
                    "unsupported unit type in name `",
                    spec_context.unit_name.as_str(),
                    "`",
                ),
            );
        },
        Some(UnitKind::Service) => match build_service(&src) {
            Ok(s) => {
                file.service = Some(s);
            },
            Err(e) => {
                return Err(e);
            },
        },
        Some(UnitKind::Timer) => match build_timer(&src) {
            Ok(t) => {
                file.timer = Some(t);
            },
            Err(e) => {
                return Err(e);
            },
        },
        Some(UnitKind::Socket) => match build_socket(&src) {
            Ok(s) => {
                file.socket = Some(s);
            },
            Err(e) => {
                return Err(e);
            },
        },
        Some(UnitKind::Mount) => match build_mount(&src) {
            Ok(m) => {
                file.mount = Some(m);
            },
            Err(e) => {
                return Err(e);
            },
        },
        Some(_) => {},
    }
    Ok(file)
}

// ---- laws -----------------------------------------------------------------------

/// A unit file that was accepted has the kind of the unit's name; a device has
/// no section of its own and looks like a target.
pub proof fn built_file_has_the_unit_kind(d: Document, c: Specifiers)
    requires
        file_of(d, c) is Ok,
    ensures
        kind_of_name(c.unit_name) is Some,
        kind_of_name(c.unit_name)->0 != UnitKind::Device ==> file_kind(file_of(d, c)->Ok_0)
            == kind_of_name(c.unit_name)->0,
        kind_of_name(c.unit_name)->0 == UnitKind::Device ==> file_kind(file_of(d, c)->Ok_0)
            == UnitKind::Target,
{
}

/// Exit code 0 counts as success whatever `SuccessExitStatus=` adds, and so
/// does all that it adds.
pub proof fn success_only_grows(s: Statuses, code: Option<i32>, signal: Option<i32>)
    ensures
        ({
            let all = Statuses { codes: seq![(0u32, 0u32)] + s.codes, signals: s.signals };
            &&& counts(all, Some(0i32), None)
            &&& counts(s, code, signal) ==> counts(all, code, signal)
        }),
{
    let all = Statuses { codes: seq![(0u32, 0u32)] + s.codes, signals: s.signals };
    assert(all.codes[0] == (0u32, 0u32));
    match (code, signal) {
        (Some(n), None) => {
            let u = unsigned_code(n);
            if in_ranges(s.codes, u) {
                let i = choose|i: int|
                    0 <= i < s.codes.len() && (#[trigger] s.codes[i]).0 <= u <= s.codes[i].1;
                assert(all.codes[i + 1] == s.codes[i]);
            }
        },
        _ => {},
    }
}

/// Settings that stand later in the file, as drop-ins do, come behind the
/// earlier ones, and of a single-valued key the last one counts.
pub proof fn later_settings_follow(a: Document, b: Document, section: Text, key: Text)
    ensures
        values(a + b, section, key) == values(a, section, key) + values(b, section, key),
        value(a + b, section, key) == match value(b, section, key) {
            Some(v) => Some(v),
            None => value(a, section, key),
        },
    decreases b.len(),
{
    if b.len() == 0 {
        assert(a + b =~= a);
        assert(values(a, section, key) + values(b, section, key) =~= values(a, section, key));
    } else {
        let d = a + b;
        later_settings_follow(a, b.drop_last(), section, key);
        assert(d.drop_last() =~= a + b.drop_last());
        assert(d.last() == b.last());
        assert(values(d, section, key) =~= values(a, section, key) + values(b, section, key));
        let x = values(b, section, key);
        if x.len() > 0 {
            assert(values(d, section, key).last() == x.last());
        } else {
            assert(values(d, section, key) =~= values(a, section, key));
        }
    }
}

} // verus!
