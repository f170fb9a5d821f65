use rystemd::platform::signal::Signal;
use rystemd::platform::windows::process::{
    configure_stdio, create_job, refusal, resolve_group, resolve_user, set_subreaper, ChildExit,
    Children, Ended, Output, Refusal, SpawnOptions, Spawned,
};
use rystemd::unit::values::{CgroupLimits, StdioTarget};

fn options() -> SpawnOptions {
    SpawnOptions {
        argv: vec!["run.exe".into()],
        env: vec![],
        cwd: None,
        uid: None,
        gid: None,
        groups: vec![],
        nice: None,
        umask: None,
        rlimits: vec![],
        stdout_target: StdioTarget::Journal,
        stderr_target: StdioTarget::Inherit,
        stdin_null: true,
        notify_socket: None,
        listen_fds: vec![],
        cgroup: None,
        limits: CgroupLimits::default(),
        unit_name: "a.service".into(),
    }
}

#[test]
fn unsupported_settings_are_refused() {
    assert_eq!(refusal(&options()), None);
    let mut o = options();
    o.notify_socket = Some("/n".into());
    assert_eq!(refusal(&o), Some(Refusal::Notify));
    o.umask = Some(0o22);
    assert_eq!(refusal(&o), Some(Refusal::Limits));
    o.groups = vec![1];
    assert_eq!(refusal(&o), Some(Refusal::Identity));
    o.argv.clear();
    assert_eq!(refusal(&o), Some(Refusal::EmptyCommand));
    assert_eq!(Refusal::EmptyCommand.message(), "empty command");
    assert_eq!(
        Refusal::Identity.message(),
        "User=/Group= is not supported by the Windows manager MVP"
    );
    assert_eq!(
        Refusal::Limits.message(),
        "Nice=/UMask=/Limit*= is not supported by the Windows manager MVP"
    );
    assert_eq!(
        Refusal::Notify.message(),
        "Type=notify is not supported by the Windows manager MVP"
    );
    assert_eq!(resolve_user("root"), None);
    assert_eq!(resolve_group("root"), None);
    set_subreaper();
}

#[test]
fn output_and_limits() {
    assert_eq!(configure_stdio(&StdioTarget::Inherit), Output::Piped);
    assert_eq!(configure_stdio(&StdioTarget::Discard), Output::Null);
    assert_eq!(
        configure_stdio(&StdioTarget::File("/log".into())),
        Output::Append("/log".into())
    );
    let mut limits = CgroupLimits::default();
    limits.memory_max = Some(u64::MAX);
    limits.tasks_max = Some(1 << 40);
    let job = create_job(&limits);
    assert_eq!(job.memory, None);
    assert_eq!(job.processes, Some(u32::MAX));
    limits.memory_max = Some(4096);
    limits.tasks_max = None;
    let job = create_job(&limits);
    assert_eq!(job.memory, Some(4096));
    assert_eq!(job.processes, None);
}

#[test]
fn ended_processes_are_reported_once() {
    let mut c = Children::new();
    for pid in [1, 2, 3] {
        c.add(Spawned { pid });
    }
    assert_eq!(c.kill_group(2, Signal::sigkill()), Ok(137));
    assert_eq!(c.kill_group(2, Signal::sigterm()), Ok(143));
    assert_eq!(
        c.kill_group(9, Signal::sigterm()),
        Err("process 9 is not tracked".into())
    );
    c.killed(2, Signal::sigterm());
    c.killed(9, Signal::sigterm());
    assert!(c.group_alive(1, false));
    assert!(!c.group_alive(1, true));
    assert!(!c.group_alive(9, false));
    let ended = vec![
        Ended { pid: 1, code: Some(5) },
        Ended { pid: 2, code: Some(143) },
        Ended { pid: 9, code: Some(0) },
        Ended { pid: 3, code: None },
        Ended { pid: 1, code: Some(5) },
    ];
    assert_eq!(
        c.reap_children(&ended),
        vec![
            (1, ChildExit::Exited(5)),
            (2, ChildExit::Signaled(15)),
            (3, ChildExit::Exited(1)),
        ]
    );
    assert!(!c.tracks(1));
    assert!(c.reap_children(&ended).is_empty());
}
