use rystemd::daemon::{
    load_warnings, run, service_image_path, service_result, Cli, Command, Job, Phase,
    ServiceCommand, Setup,
};

#[test]
fn service_image_path_quotes_executable() {
    assert_eq!(
        service_image_path(r"C:\\Program Files\\rustemd\\rustemd.exe"),
        r#""C:\\Program Files\\rustemd\\rustemd.exe" service run"#
    );
}

#[test]
fn commands_become_jobs() {
    let cli = Cli {
        user: true,
        cmd: Command::Daemon {
            no_socket_activation: true,
        },
    };
    assert_eq!(
        run(cli, "1.0"),
        Job::Manage {
            user: true,
            socket_activation: false
        }
    );
    let cli = Cli {
        user: false,
        cmd: Command::Version,
    };
    assert_eq!(run(cli, "1.0"), Job::Print("rustemd 1.0".into()));
    let action = ServiceCommand::Uninstall {
        name: "rustemd-test".into(),
    };
    let cli = Cli {
        user: false,
        cmd: Command::Service {
            action: action.clone(),
        },
    };
    assert_eq!(run(cli, "1.0"), Job::Service(action));
    assert_eq!(service_result(&Ok(())), (0, None));
    assert_eq!(
        service_result(&Err("denied".into())),
        (1, Some("rustemd: denied".into()))
    );
}

#[test]
fn the_manager_comes_up_step_by_step() {
    let setup = Setup {
        user: false,
        first_process: false,
        boots: true,
        as_pid1: false,
    };
    let mut phase = setup.first();
    let mut seen = vec![phase];
    let mut printed = vec![];
    while !matches!(phase, Phase::Exit(_)) {
        let (next, line) = setup.run_daemon(phase, &Ok(()), "1.0");
        printed.extend(line);
        phase = next;
        seen.push(phase);
    }
    assert_eq!(
        seen,
        vec![
            Phase::Configure,
            Phase::Create,
            Phase::Load,
            Phase::Devices,
            Phase::Subreaper,
            Phase::BindIpc,
            Phase::BindNotify,
            Phase::Signals,
            Phase::Dbus,
            Phase::StartDefault,
            Phase::Ready,
            Phase::Serve,
            Phase::Exit(0),
        ]
    );
    assert_eq!(printed, vec!["rustemd 1.0 manager started"]);
}

#[test]
fn the_first_process_boots_and_powers_off() {
    let setup = Setup {
        user: false,
        first_process: true,
        boots: true,
        as_pid1: true,
    };
    assert_eq!(setup.first(), Phase::Boot);
    assert_eq!(
        setup.run_daemon(Phase::Boot, &Err("busy".into()), "1"),
        (
            Phase::Configure,
            Some("rustemd: mount API filesystems failed: busy".into())
        )
    );
    assert_eq!(
        setup.run_daemon(Phase::Devices, &Ok(()), "1"),
        (Phase::BindIpc, None)
    );
    assert_eq!(
        setup.run_daemon(Phase::Serve, &Ok(()), "1"),
        (
            Phase::PowerOff,
            Some("rustemd: shutdown complete, powering off".into())
        )
    );
    assert_eq!(
        setup.run_daemon(Phase::PowerOff, &Ok(()), "1"),
        (Phase::Exit(0), None)
    );
}

#[test]
fn failures_end_the_start_where_they_must() {
    let setup = Setup {
        user: true,
        first_process: false,
        boots: false,
        as_pid1: false,
    };
    let e = Err("x".to_string());
    assert_eq!(
        setup.run_daemon(Phase::Configure, &e, "1"),
        (Phase::Exit(1), Some("x".into()))
    );
    assert_eq!(
        setup.run_daemon(Phase::Create, &e, "1"),
        (Phase::Exit(1), Some("x".into()))
    );
    assert_eq!(
        setup.run_daemon(Phase::BindIpc, &e, "1"),
        (
            Phase::Exit(1),
            Some("Failed to bind control socket: x".into())
        )
    );
    assert_eq!(
        setup.run_daemon(Phase::BindNotify, &e, "1"),
        (
            Phase::Exit(1),
            Some("Failed to bind notify socket: x".into())
        )
    );
    assert_eq!(
        setup.run_daemon(Phase::Dbus, &e, "1"),
        (Phase::StartDefault, Some("D-Bus: x".into()))
    );
    assert_eq!(
        setup.run_daemon(Phase::StartDefault, &e, "1"),
        (Phase::Ready, None)
    );
    assert_eq!(
        load_warnings(&vec!["a".into(), "b".into()]),
        vec!["[load] a", "[load] b"]
    );
}
