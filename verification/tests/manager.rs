use rystemd::manager::ops::{
    active_str, is_segment, load_str, result_str, Lifecycle, ListedFile, Manager, ReadFile,
};
use rystemd::manager::state::{
    ActiveState, ControlCommand, LoadState, SubState, TimerState, Unit, UnitResult,
};
use rystemd::manager::unit_type::{
    DeviceUnit, ServiceUnit, SocketUnit, Step, TargetUnit, TimerUnit, UnitType,
};
use rystemd::platform::signal::Signal;
use rystemd::repo::store::Repo;
use rystemd::specifier::SpecifierContext;
use rystemd::table::Table;
use rystemd::unit::config::{build, UnitKind};
use rystemd::unit::parse::parse;

fn unit(name: &str, text: &str) -> Unit {
    let context = SpecifierContext {
        unit_name: name.into(),
        runtime_dir: String::new(),
        user_name: String::new(),
        uid: String::new(),
        home: String::new(),
        hostname: String::new(),
        machine_id: String::new(),
    };
    let kind = UnitKind::from_unit_name(name).unwrap();
    let mut u = Unit::new(name, kind, 0);
    u.file = Some(build(&parse(text).unwrap(), &context).unwrap());
    u.load = LoadState::Loaded;
    u.path = Some(format!("/units/{name}"));
    u
}

fn manager(units: Vec<Unit>) -> Manager {
    let mut table = Table::new();
    for u in units {
        table.insert(u.name.clone(), u);
    }
    Manager {
        units: table,
        repo: Repo::open_roots(vec!["/units".into(), "/lib".into()]).unwrap(),
    }
}

fn names(v: &[&str]) -> Vec<String> {
    v.iter().map(|s| s.to_string()).collect()
}

#[test]
fn states_are_shown() {
    assert_eq!(load_str(LoadState::NotFound), "not-found");
    assert_eq!(active_str(ActiveState::Deactivating), "deactivating");
    assert_eq!(result_str(UnitResult::StartLimitHit), "start-limit-hit");
    assert_eq!(SubState::StopSigterm.as_str(), "stop-sigterm");
}

#[test]
fn queries_answer_from_the_units() {
    let mut web = unit("web.service", "[Unit]\nDescription=Web server\n");
    web.active = ActiveState::Active;
    web.active_enter = Some(100);
    web.main_pid = Some(7);
    let db = unit("db.service", "[Unit]\nDescription=Database\n");
    let mgr = manager(vec![web, db]);
    let status = mgr.status_of("web.service", "enabled").unwrap();
    assert_eq!(status.active, "active");
    assert_eq!(status.active_enter, Some(100));
    assert_eq!(status.enabled, "enabled");
    assert!(mgr.status_of("nope.service", "").is_none());
    let all = mgr.list_unit_summaries(&vec![], None, None);
    let listed: Vec<&str> = all.iter().map(|u| u.unit.as_str()).collect();
    assert_eq!(listed, vec!["db.service", "web.service"]);
    let only = mgr.list_unit_summaries(&names(&["service"]), Some("active"), Some("server"));
    assert_eq!(only.len(), 1);
    assert!(mgr
        .list_unit_summaries(&names(&["timer"]), None, None)
        .is_empty());
    assert_eq!(
        mgr.query_names(&vec![]),
        vec!["db.service", "web.service"]
    );
    let info = mgr.repo_info();
    assert_eq!(info.root, "/units");
    assert_eq!(info.roots, vec!["/units", "/lib"]);
    assert_eq!(Manager::get_default(None), "default.target");
    assert_eq!(Manager::get_default(Some("x.target".into())), "x.target");
    assert_eq!(
        Manager::set_default("x.target", None),
        Err("unit x.target not found".into())
    );
    assert_eq!(
        Manager::set_default("x.target", Some("/u/x.target".into())),
        Ok("/u/x.target".into())
    );
}

#[test]
fn timers_are_listed_with_what_they_activate() {
    let mut t = unit("tick.timer", "[Timer]\nOnCalendar=daily\nUnit=tock.service\n");
    t.timer = Some(TimerState::new(vec!["daily".into()]));
    let mut state = TimerState::new(vec!["daily".into()]);
    state.next_display = Some(130);
    t.timer = Some(state);
    let mgr = manager(vec![t]);
    let rows = mgr.list_timer_info(100);
    assert_eq!(rows.len(), 1);
    assert_eq!(rows[0].activates, "tock.service");
    assert_eq!(rows[0].next, Some(130));
    assert_eq!(rows[0].next_left, Some(30));
    assert_eq!(rows[0].spec_strings, vec!["daily"]);
}

#[test]
fn unit_files_are_listed_in_order() {
    let f = |file: &str, is_file: bool| ListedFile {
        file: file.into(),
        path: format!("/units/{file}"),
        is_file,
        state: "static".into(),
    };
    let rows = Manager::list_unit_file_info(&vec![
        f("z.service", true),
        f("a.timer", true),
        f("notes.txt", true),
        f("dir.service", false),
    ]);
    let files: Vec<&str> = rows.iter().map(|r| r.file.as_str()).collect();
    assert_eq!(files, vec!["a.timer", "z.service"]);
}

#[test]
fn unit_files_are_shown_as_they_are_stored() {
    let mut made = Unit::new("made.target", UnitKind::Target, 0);
    made.load = LoadState::Loaded;
    let mgr = manager(vec![unit("a.service", "[Unit]\nDescription=x\n"), made]);
    let read = |text: &str| {
        Ok(ReadFile {
            name: "a.service".into(),
            text: text.into(),
        })
    };
    let entries = mgr
        .cat(
            &names(&["a.service", "made.target"]),
            &vec![read("# note\n[Unit]\n\nA = b\n"), Err("unused".into())],
        )
        .unwrap();
    assert_eq!(entries[0].text, "# note\n[Unit]\n\nA = b\n");
    assert_eq!(entries[0].unit, "a.service");
    assert_eq!(entries[1].path, "(synthesized)");
    assert_eq!(
        mgr.cat(&names(&["nope"]), &vec![Err("x".into())]).err(),
        Some("Unit nope not found.".into())
    );
    assert_eq!(
        mgr.cat(&names(&["a.service"]), &vec![Err("denied".into())])
            .err(),
        Some("denied".into())
    );
    assert_eq!(
        mgr.cat(&names(&["a.service"]), &vec![read("# only a note")])
            .unwrap()[0]
            .text,
        "# only a note"
    );
    assert!(mgr
        .cat(&names(&["a.service"]), &vec![read("[Unit]\nno setting\n")])
        .is_err());
}

#[test]
fn isolating_stops_what_is_not_required() {
    let mut on = unit("on.service", "[Unit]\nDescription=x\n");
    on.active = ActiveState::Active;
    let mut failed = unit("failed.service", "[Unit]\nDescription=x\n");
    failed.active = ActiveState::Failed;
    let mut target = unit("t.target", "[Unit]\nDescription=x\n");
    target.active = ActiveState::Active;
    let off = unit("off.service", "[Unit]\nDescription=x\n");
    let mgr = manager(vec![on, failed, target, off]);
    let (stops, start) = mgr.isolate("goal");
    assert_eq!(stops, vec!["failed.service", "on.service", "t.target"]);
    assert_eq!(start, "goal.service");
    let (stops, _) = mgr.isolate("on");
    assert_eq!(stops, vec!["failed.service", "t.target"]);
}

#[test]
fn isolating_keeps_what_is_required() {
    let active = |name: &str, text: &str| {
        let mut u = unit(name, text);
        u.active = ActiveState::Active;
        u
    };
    let mgr = manager(vec![
        unit("a.service", "[Unit]\nRequires=b.service\nWants=w.service\n"),
        active("b.service", "[Unit]\nBindsTo=c.service\n"),
        active("c.service", "[Unit]\nDescription=x\n"),
        active("w.service", "[Unit]\nDescription=x\n"),
        active("t.timer", "[Timer]\nOnCalendar=daily\n"),
    ]);
    let (stops, _) = mgr.isolate("a");
    assert_eq!(stops, vec!["t.timer", "w.service"]);
}

#[test]
fn trying_to_restart_leaves_inactive_units_alone() {
    let with = |name: &str, active: ActiveState| {
        let mut u = unit(name, "[Unit]\nDescription=x\n");
        u.active = active;
        u
    };
    let mgr = manager(vec![
        with("on.service", ActiveState::Active),
        with("soon.service", ActiveState::Activating),
        with("off.service", ActiveState::Inactive),
        with("failed.service", ActiveState::Failed),
    ]);
    assert_eq!(
        mgr.try_restart_units(&names(&[
            "on.service",
            "soon.service",
            "off.service",
            "failed.service",
            "new.service"
        ])),
        vec![
            Some(Lifecycle::Restart),
            Some(Lifecycle::Restart),
            None,
            Some(Lifecycle::Start),
            Some(Lifecycle::Start)
        ]
    );
}

#[test]
fn failures_are_reset() {
    let mut failed = unit("failed.service", "[Unit]\nDescription=x\n");
    failed.active = ActiveState::Failed;
    failed.sub = SubState::Failed;
    failed.result = UnitResult::ExitCode;
    let mut mgr = manager(vec![failed]);
    assert_eq!(
        mgr.reset_failed_units(&names(&["failed.service", "nope.service"])),
        Err("Unit nope.service not found.".into())
    );
    let u = mgr.units.get("failed.service").unwrap();
    assert_eq!(u.active, ActiveState::Inactive);
    assert_eq!(u.sub, SubState::Dead);
    assert_eq!(u.result, UnitResult::Success);
    assert_eq!(mgr.reset_failed_units(&names(&["failed.service"])), Ok(()));
}

#[test]
fn dependencies_are_listed_both_ways() {
    let mgr = manager(vec![
        unit("dep1.service", "[Unit]\nWants=dep2 dep2.service\nRequires=b\n"),
        unit("dep2.service", "[Unit]\nDescription=x\n"),
    ]);
    let mut dirs = Table::new();
    dirs.insert("dep1.service".to_string(), names(&["linked", "b.service"]));
    assert_eq!(
        mgr.list_dependencies("dep1", false, &dirs),
        vec!["b.service", "dep2.service", "linked.service"]
    );
    assert_eq!(
        mgr.list_dependencies("dep2", true, &dirs),
        vec!["dep1.service"]
    );
    assert_eq!(
        mgr.list_dependencies("linked", true, &dirs),
        vec!["dep1.service"]
    );
    assert!(mgr.list_dependencies("dep1", true, &dirs).is_empty());
}

#[test]
fn cleaning_is_reported() {
    assert_eq!(
        Manager::clean_units(&names(&["a", "b.timer"]), &vec![true, false]),
        vec![
            "Cleaned runtime state of a.service.",
            "Clean b.timer: nothing to clean."
        ]
    );
    assert!(is_segment("a.service", "a.service"));
    assert!(is_segment("a.service.1", "a.service"));
    assert!(!is_segment("a.service2", "a.service"));
    assert_eq!(Manager::mask_units(&names(&["a"])), vec!["a.service"]);
    assert_eq!(Manager::unmask_units(&names(&["a.b"])), vec!["a.b"]);
    assert_eq!(Manager::reenable_units(&names(&["c"])), vec!["c.service"]);
}

#[test]
fn services_start_and_stop_in_steps() {
    let mut u = unit(
        "a.service",
        "[Service]\nExecStartPre=/bin/pre\nExecStart=/bin/run\nExecStop=/bin/stop\n",
    );
    assert_eq!(
        ServiceUnit.start(&mut u, 10),
        Step::SpawnControl(ControlCommand::StartPre, 0)
    );
    assert_eq!(u.active, ActiveState::Activating);
    assert_eq!(
        ServiceUnit.stop(&mut u, true),
        Step::Terminate(Signal::sigterm())
    );
    assert_eq!(u.sub, SubState::StopSigterm);
    assert_eq!(
        ServiceUnit.stop(&mut u, false),
        Step::SpawnControl(ControlCommand::Stop, 0)
    );
    assert_eq!(u.sub, SubState::Stop);
    let mut plain = unit("b.service", "[Service]\nExecStart=/bin/run\n");
    assert_eq!(
        ServiceUnit.start(&mut plain, 10),
        Step::SpawnControl(ControlCommand::Start, 0)
    );
    assert_eq!(
        ServiceUnit.stop(&mut plain, true),
        Step::Terminate(Signal::sigterm())
    );
    assert_eq!(ServiceUnit.stop(&mut plain, false), Step::FinalizeStop);
}

#[test]
fn other_units_have_no_processes() {
    let mut t = unit("a.target", "[Unit]\nDescription=x\n");
    assert_eq!(TargetUnit.start(&mut t, 5), Step::CompleteStartJob);
    assert_eq!(t.active, ActiveState::Active);
    assert_eq!(t.active_enter, Some(5));
    assert_eq!(TargetUnit.stop(&mut t, false), Step::FinalizeStop);
    let mut timer = unit("a.timer", "[Timer]\nOnCalendar=daily\n");
    assert_eq!(TimerUnit.start(&mut timer, 5), Step::CompleteStartJob);
    let mut socket = unit("a.socket", "[Socket]\nListenStream=/run/a\n");
    assert_eq!(SocketUnit.start(&mut socket, 5), Step::StartSocket);
    assert_eq!(SocketUnit.stop(&mut socket, false), Step::StopSocket);
    let mut device = Unit::new("sys-net-lo.device", UnitKind::Device, 0);
    assert_eq!(DeviceUnit.start(&mut device, 5), Step::CompleteStartJob);
}

#[test]
fn entering_a_state_keeps_the_books() {
    let mut u = Unit::new("a.service", UnitKind::Service, 1);
    assert_eq!(u.inactive_enter, Some(1));
    u.set_active(ActiveState::Active, SubState::Running, UnitResult::Success, 5);
    assert_eq!(u.active_enter, Some(5));
    u.set_active(ActiveState::Failed, SubState::Failed, UnitResult::Timeout, 9);
    assert_eq!(u.inactive_enter, Some(9));
    u.set_active(ActiveState::Inactive, SubState::Dead, UnitResult::Success, 12);
    assert_eq!(u.result, UnitResult::Timeout);
    assert_eq!(Unit::new("b.timer", UnitKind::Timer, 0).activated_unit(), "b.service");
    assert_eq!(
        Unit::new("b.socket", UnitKind::Socket, 0).activated_service(),
        "b.service"
    );
}
