use rystemd::platform::signal::Signal;
use rystemd::specifier::SpecifierContext;
use rystemd::unit::config::{
    build, RestartPolicy, ServiceConfig, ServiceType, UnitFile, UnitKind,
};
use rystemd::unit::mount_path::mount_path_from_unit_name;
use rystemd::unit::parse::{parse, tokenize, unquote_scalar};
use rystemd::unit::values::{
    parse_bool, parse_bytes, parse_exit_status, parse_limit, parse_octal, parse_rlimit,
    parse_stdio, sig_from_name, sysexit_from_name, RlimitResource, StdioTarget,
};

fn context(name: &str) -> SpecifierContext {
    SpecifierContext {
        unit_name: name.into(),
        runtime_dir: "/run".into(),
        user_name: "alice".into(),
        uid: "1000".into(),
        home: "/home/alice".into(),
        hostname: "box".into(),
        machine_id: "m".into(),
    }
}

fn build_str(text: &str, name: &str) -> Result<UnitFile, String> {
    let raw = parse(text).map_err(|e| e.message())?;
    build(&raw, &context(name))
}

#[test]
fn parses_service() {
    let f = build_str(
        "[Unit]\nDescription=My Service\n[Service]\nExecStart=/bin/sleep 100\nRestart=always\n",
        "my.service",
    )
    .unwrap();
    assert_eq!(f.unit.description, "My Service");
    assert_eq!(f.service.as_ref().unwrap().restart, RestartPolicy::Always);
    assert_eq!(
        f.service.as_ref().unwrap().exec_start[0].argv,
        vec!["/bin/sleep", "100"]
    );
}

#[test]
fn oneshot_remain_after() {
    let f = build_str(
        "[Service]\nType=oneshot\nRemainAfterExit=yes\nExecStart=/bin/true\n",
        "x.service",
    )
    .unwrap();
    let s = f.service.as_ref().unwrap();
    assert_eq!(s.service_type, ServiceType::Oneshot);
    assert!(s.remain_after_exit);
}

#[test]
fn dbus_type_and_bus_name() {
    let f = build_str(
        "[Service]\nType=dbus\nBusName=com.example.Foo\nExecStart=/bin/foo\n",
        "dbus.service",
    )
    .unwrap();
    let s = f.service.as_ref().unwrap();
    assert_eq!(s.service_type, ServiceType::Dbus);
    assert_eq!(s.bus_name.as_deref(), Some("com.example.Foo"));
}

#[test]
fn dbus_type_without_bus_name_still_parses() {
    // BusName= is optional at parse time; the manager enforces its
    // presence for Type=dbus at start time.
    let f = build_str("[Service]\nType=dbus\nExecStart=/bin/foo\n", "dbus.service").unwrap();
    let s = f.service.as_ref().unwrap();
    assert_eq!(s.service_type, ServiceType::Dbus);
    assert!(s.bus_name.is_none());
}

#[test]
fn exit_status_parsing() {
    let set = parse_exit_status("0 2..4 SIGTERM").unwrap();
    assert!(set.matches(Some(0), None));
    assert!(set.matches(Some(3), None));
    assert!(!set.matches(Some(5), None));
    assert!(set.matches(None, Some(15)));
    assert!(!set.matches(None, Some(9)));
}

#[test]
fn signal_parser_accepts_numeric_wire_values() {
    assert_eq!(sig_from_name("9"), Some(Signal::sigkill()));
    assert_eq!(sig_from_name("15"), Some(Signal::sigterm()));
}

#[test]
fn sysexit_parsing() {
    let set = parse_exit_status("DATAERR").unwrap();
    assert!(set.matches(Some(65), None));
    let set = parse_exit_status("EX_TEMPFAIL ex_config SUCCESS").unwrap();
    assert!(set.matches(Some(75), None));
    assert!(set.matches(Some(78), None));
    assert!(set.matches(Some(0), None));
}

#[test]
fn effective_success_keeps_exit_zero() {
    let cfg = ServiceConfig {
        success_exit_status: Some(parse_exit_status("DATAERR").unwrap()),
        ..Default::default()
    };
    let set = cfg.effective_exit_success();
    assert!(set.matches(Some(0), None)); // exit 0 is always success
    assert!(set.matches(Some(65), None)); // DATAERR
    assert!(!set.matches(Some(1), None)); // anything else fails
}

#[test]
fn environment_and_files() {
    let f = build_str(
        "[Service]\nEnvironment=\"A=1\" \"B=two words\"\nEnvironmentFile=-/etc/env\n",
        "e.service",
    )
    .unwrap();
    let s = f.service.as_ref().unwrap();
    assert_eq!(
        s.environment,
        vec![
            ("A".to_string(), "1".to_string()),
            ("B".to_string(), "two words".to_string())
        ]
    );
    assert_eq!(s.environment_files, vec![("/etc/env".to_string(), true)]);
}

#[test]
fn exec_quoting() {
    let f = build_str(
        "[Service]\nExecStart=/bin/sh -c 'echo \"hi world\"'\n",
        "q.service",
    )
    .unwrap();
    assert_eq!(
        f.service.as_ref().unwrap().exec_start[0].argv,
        vec!["/bin/sh", "-c", "echo \"hi world\""]
    );
}

#[test]
fn specifier_expansion_in_values() {
    let f = build_str(
        "[Service]\nWorkingDirectory=%h\nExecStart=%p/bin/run\n",
        "app.service",
    )
    .unwrap();
    let s = f.service.as_ref().unwrap();
    assert_eq!(
        s.working_directory,
        Some(("/home/alice".to_string(), false))
    );
    assert_eq!(s.exec_start[0].argv, vec!["app/bin/run"]);
}

#[test]
fn timer_parsing() {
    let f = build_str(
        "[Timer]\nOnCalendar=daily\nOnBootSec=5min\nPersistent=yes\nUnit=backup.service\n",
        "backup.timer",
    )
    .unwrap();
    let t = f.timer.as_ref().unwrap();
    assert_eq!(t.on_calendar.len(), 1);
    assert_eq!(t.on_boot_sec.len(), 1);
    assert!(t.persistent);
    assert_eq!(t.unit.as_deref(), Some("backup.service"));
}

#[test]
fn cgroup_resource_directives() {
    let f = build_str(
        "[Service]\nExecStart=/bin/true\nMemoryMax=512M\nMemoryHigh=100M\nCPUWeight=256\nTasksMax=64\n",
        "r.service",
    )
    .unwrap();
    let l = f.service.as_ref().unwrap().cgroup_limits;
    assert_eq!(l.memory_max, Some(512 * 1024 * 1024));
    assert_eq!(l.memory_high, Some(100 * 1024 * 1024));
    assert_eq!(l.cpu_weight, Some(256));
    assert_eq!(l.tasks_max, Some(64));
}

#[test]
fn cgroup_infinity_and_rejects() {
    let f = build_str(
        "[Service]\nMemoryMax=infinity\nTasksMax=infinity\n",
        "i.service",
    )
    .unwrap();
    let l = f.service.as_ref().unwrap().cgroup_limits;
    assert_eq!(l.memory_max, Some(u64::MAX));
    assert_eq!(l.tasks_max, Some(u64::MAX));

    assert!(build_str("[Service]\nCPUWeight=0\n", "b.service").is_err());
    assert!(build_str("[Service]\nCPUWeight=10001\n", "b.service").is_err());
    assert!(build_str("[Service]\nMemoryMax=bogus\n", "b.service").is_err());
}

#[test]
fn dropin_override_semantics() {
    // A main file plus a drop-in appended: scalars last-wins, list keys keep
    // order.
    let combined = "[Unit]\nDescription=base\n[Service]\nExecStart=/bin/one\n".to_string()
        + "[Unit]\nDescription=override\n[Service]\nExecStart=/bin/two\n";
    let f = build_str(&combined, "o.service").unwrap();
    assert_eq!(f.unit.description, "override");
    assert_eq!(f.service.as_ref().unwrap().exec_start.len(), 2);
}

#[test]
fn mount_path_derivation() {
    assert_eq!(
        mount_path_from_unit_name("tmp-demo.mount").as_deref(),
        Some("/tmp/demo")
    );
    assert_eq!(
        mount_path_from_unit_name("var-log.mount").as_deref(),
        Some("/var/log")
    );
    // A literal `-` in the path is `\x2d` in the unit name.
    assert_eq!(
        mount_path_from_unit_name("tmp-my\\x2ddir.mount").as_deref(),
        Some("/tmp/my-dir")
    );
    // A non-`.mount` suffix yields nothing.
    assert_eq!(mount_path_from_unit_name("tmp-demo.service"), None);
}

#[test]
fn mount_parsing_and_name_derivation() {
    // Explicit Where= wins over the name-derived default.
    let f = build_str(
        "[Mount]\nWhat=tmpfs\nWhere=/run/explicit\nType=tmpfs\nOptions=mode=1777,size=64m\n",
        "tmp-demo.mount",
    )
    .unwrap();
    let m = f.mount.as_ref().unwrap();
    assert_eq!(m.what.as_deref(), Some("tmpfs"));
    assert_eq!(m.where_.as_deref(), Some("/run/explicit"));
    assert_eq!(m.fs_type.as_deref(), Some("tmpfs"));
    assert_eq!(m.options.as_deref(), Some("mode=1777,size=64m"));
    assert_eq!(f.kind(), UnitKind::Mount);

    // No Where= → derived from the unit name (`tmp-demo.mount` → /tmp/demo).
    let f = build_str("[Mount]\nWhat=tmpfs\nType=tmpfs\n", "tmp-demo.mount").unwrap();
    assert_eq!(
        f.mount.as_ref().unwrap().where_.as_deref(),
        Some("/tmp/demo")
    );
}

#[test]
fn unit_kind_suffix_mount() {
    assert_eq!(UnitKind::Mount.suffix(), "mount");
    assert_eq!(UnitKind::from_suffix("mount"), Some(UnitKind::Mount));
    assert_eq!(
        UnitKind::from_unit_name("tmp-demo.mount"),
        Some(UnitKind::Mount)
    );
}

#[test]
fn a_mount_name_can_hold_any_bytes() {
    // The bytes of a two-byte character, written in hexadecimal.
    assert_eq!(
        mount_path_from_unit_name("tmp-\\xc3\\xa9.mount").as_deref(),
        Some("/tmp/é")
    );
    // Bytes that are no text.
    assert_eq!(mount_path_from_unit_name("tmp-\\xff.mount"), None);
}

#[test]
fn tokens_are_split_and_unquoted() {
    assert_eq!(
        tokenize("a 'b c' \"d e\"f").unwrap(),
        vec!["a", "b c", "d ef"]
    );
    assert!(tokenize("'open").is_err());
    assert_eq!(unquote_scalar("\"x y\"").unwrap(), "x y");
}

#[test]
fn scalar_values() {
    assert_eq!(parse_bool("yes"), Ok(true));
    assert_eq!(parse_bool("OFF"), Ok(false));
    assert!(parse_bool("perhaps").is_err());
    assert_eq!(parse_octal("0755"), Ok(0o755));
    assert!(parse_octal("9").is_err());
    assert_eq!(parse_limit("infinity"), Ok(u64::MAX));
    assert_eq!(parse_limit("42"), Ok(42));
    assert!(parse_limit("-1").is_err());
    assert_eq!(parse_bytes("2K"), Ok(2048));
    assert_eq!(parse_bytes("3G"), Ok(3 * 1024 * 1024 * 1024));
    assert!(parse_bytes("x").is_err());
    let limit = parse_rlimit(RlimitResource::NoFile, "10:20").unwrap();
    assert_eq!((limit.soft, limit.hard), (10, 20));
    assert_eq!(parse_stdio("null"), Ok(StdioTarget::Discard));
    assert_eq!(parse_stdio("journal"), Ok(StdioTarget::Journal));
    assert_eq!(sysexit_from_name("USAGE"), Some(64));
    assert_eq!(sysexit_from_name("NOSUCH"), None);
}

#[test]
fn signals_are_read_back_as_they_are_shown() {
    for n in 1..=31 {
        let s = Signal::try_from(n).unwrap();
        assert_eq!(sig_from_name(&s.show()), Some(s));
    }
    assert!(Signal::try_from(0).is_err());
    assert!(Signal::try_from(32).is_err());
    assert_eq!(Signal::sigkill().show(), "SIGKILL");
    assert_eq!(Signal::try_from(10).unwrap().show(), "10");
    assert_eq!(sig_from_name("term"), Some(Signal::sigterm()));
    assert_eq!(sig_from_name("KILLLG"), None);
}

#[test]
fn unknown_kinds_are_refused() {
    assert!(build_str("[Unit]\nDescription=x\n", "x.unknown").is_err());
    assert!(build_str("[Service]\nType=strange\n", "x.service").is_err());
}

#[test]
fn exit_status_lists_are_joined() {
    let a = parse_exit_status("0 SIGTERM").unwrap();
    let b = parse_exit_status("2..4 KILL DATAERR").unwrap();
    let both = parse_exit_status("0 SIGTERM 2..4 KILL DATAERR").unwrap();
    assert_eq!(both.codes, [a.codes, b.codes].concat());
    assert_eq!(both.signals, [a.signals, b.signals].concat());
    assert_eq!(both.codes.len() + both.signals.len(), 5);
    assert!(parse_exit_status("0 nonsense").is_err());
    assert!(parse_exit_status("nonsense 0").is_err());
    assert!(parse_exit_status(" \t ").is_err());
}
