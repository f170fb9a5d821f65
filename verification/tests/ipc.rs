use rystemd::control::JournalRecord;
use rystemd::ipc::journal::{read_line, select_records, stored_line};
use rystemd::ipc::run::{run_op, Answer, Facts, SequenceOp, Work};
use rystemd::ipc::serve::Served;
use rystemd::ipc::work::{
    reply_done, reply_loaded, reply_messages, Event, Sequence, Stage,
};
use rystemd::ipc::{
    dispatch, read_reply_line, read_request, read_request_line, reply, reply_data, reply_line,
    Request, UnitsOp,
};
use rystemd::manager::ops::{Lifecycle, ListedFile, Manager, ReadFile};
use rystemd::manager::state::{ActiveState, LoadState, Unit};
use rystemd::platform::signal::Signal;
use rystemd::repo::store::Repo;
use rystemd::table::Table;
use rystemd::unit::config::UnitKind;
use serde_json::Value;

fn parse(text: &str) -> Value {
    serde_json::from_str(text).unwrap()
}

fn unit(name: &str, active: ActiveState) -> Unit {
    let mut u = Unit::new(name, UnitKind::from_unit_name(name).unwrap(), 0);
    u.load = LoadState::Loaded;
    u.active = active;
    u
}

fn manager() -> Manager {
    let mut units = Table::new();
    for (n, a) in [
        ("a.service", ActiveState::Active),
        ("b.service", ActiveState::Inactive),
        ("c.service", ActiveState::Failed),
    ] {
        units.insert(n.to_string(), unit(n, a));
    }
    Manager {
        units,
        repo: Repo::open("/units".into()),
    }
}

fn facts() -> Facts {
    let mut states = Table::new();
    states.insert("a.service".to_string(), "enabled".to_string());
    Facts {
        now: 100,
        states,
        dirs: Table::new(),
        files: vec![ListedFile {
            file: "a.service".into(),
            path: "/units/a.service".into(),
            is_file: true,
            state: "enabled".into(),
        }],
        default_link: Some("multi-user.target".into()),
        read_files: vec![Ok(ReadFile {
            name: "a.service".into(),
            text: "[Unit]\n".into(),
        })],
        records: vec![
            record(3, "late"),
            record(1, "early"),
            record(3, "later"),
        ],
        journal_dir: "/journal".into(),
    }
}

fn record(secs: u64, text: &str) -> JournalRecord {
    JournalRecord {
        secs,
        unit: "a.service".into(),
        text: text.into(),
    }
}

fn ask(line: &str) -> Answer {
    let mut mgr = manager();
    run_op(&mut mgr, read_request_line(line).unwrap(), &facts())
}

fn answer(line: &str) -> Result<Value, String> {
    match ask(line) {
        Answer::Reply(r) => r,
        Answer::Perform(w) => panic!("work: {w:?}"),
    }
}

fn work(line: &str) -> Work {
    match ask(line) {
        Answer::Perform(w) => w,
        Answer::Reply(_) => panic!("reply"),
    }
}

#[test]
fn requests_are_read() {
    let q = read_request_line(r#"{"op":"start","units":["a","b.timer",7]}"#).unwrap();
    assert!(matches!(
        q,
        Request::Units { op: UnitsOp::Start, ref units } if *units == vec!["a.service", "b.timer"]
    ));
    let q = read_request_line(r#"{"op":"kill","units":["a"]}"#).unwrap();
    assert!(matches!(
        q,
        Request::Kill { ref unit, signal } if unit == "a.service" && signal == Signal::sigterm()
    ));
    let q = read_request_line(r#"{"op":"journal","since":5,"tail":-1}"#).unwrap();
    assert!(matches!(
        q,
        Request::Journal { unit: None, since: Some(5), tail: None }
    ));
    for op in [
        "stop", "restart", "try_restart", "reload", "reset_failed", "clean", "status", "is_active",
        "is_failed", "cat", "enable", "disable", "mask", "unmask", "reenable", "is_enabled",
    ] {
        let line = format!("{{\"op\":\"{op}\"}}");
        match read_request_line(&line).unwrap() {
            Request::Units { op: x, units } => {
                assert_eq!(x.as_str(), op);
                assert!(units.is_empty());
            }
            _ => panic!("{op}"),
        }
    }
}

#[test]
fn bad_requests_are_refused() {
    let refused = |line: &str| read_request_line(line).unwrap_err();
    assert_eq!(refused("{}"), "missing op");
    assert_eq!(refused(r#"{"op":"dance"}"#), "unknown op `dance`");
    assert_eq!(refused(r#"{"op":"kill"}"#), "kill: no unit");
    assert_eq!(
        refused(r#"{"op":"kill","units":["a"],"signal":"KILLLG"}"#),
        "unknown signal `KILLLG`"
    );
    assert_eq!(
        refused(r#"{"op":"list_dependencies"}"#),
        "list_dependencies: missing name"
    );
    assert_eq!(refused(r#"{"op":"isolate"}"#), "isolate: missing name");
    assert_eq!(
        refused(r#"{"op":"set_default","name":1}"#),
        "set_default: missing name"
    );
    assert!(refused("{").starts_with("bad request: "));
    assert!(read_request(&parse("[]")).is_err());
}

#[test]
fn replies_come_back_from_their_lines() {
    let data = parse(r#"{"states":[["a.service","active"]],"exit":0,"note":"line\nbreak"}"#);
    let line = reply_line(Ok(data.clone()));
    assert!(line.ends_with('\n'));
    assert_eq!(line.matches('\n').count(), 1);
    assert_eq!(read_reply_line(&line), Ok(data));
    let line = reply_line(Err("no \"such\" unit".into()));
    assert_eq!(read_reply_line(&line), Err("no \"such\" unit".into()));
    assert_eq!(
        reply(Ok(Value::Null)),
        parse(r#"{"ok":true,"data":null}"#)
    );
    assert_eq!(reply_data(&parse(r#"{"ok":true}"#)), Ok(Value::Null));
    assert_eq!(reply_data(&parse("3")), Err("unknown error".into()));
    assert!(read_reply_line("x").unwrap_err().starts_with("bad response: "));
}

#[test]
fn states_are_answered_at_once() {
    assert_eq!(
        answer(r#"{"op":"is_active","units":["a","b"]}"#),
        Ok(parse(
            r#"{"states":[["a.service","active"],["b.service","inactive"]],"exit":3}"#
        ))
    );
    assert_eq!(
        answer(r#"{"op":"is_active","units":["a","c"]}"#).unwrap()["exit"],
        4
    );
    assert_eq!(
        answer(r#"{"op":"is_active","units":["x"]}"#),
        Err("Unit x.service not found.".into())
    );
    assert_eq!(answer(r#"{"op":"is_failed","units":["c"]}"#), Ok(parse("[true]")));
    assert_eq!(
        answer(r#"{"op":"is_failed","units":["c","a","x"]}"#),
        Ok(parse("[false]"))
    );
    assert_eq!(
        answer(r#"{"op":"is_failed","units":["c","x"]}"#),
        Err("Unit x.service not found.".into())
    );
    assert_eq!(
        answer(r#"{"op":"is_system_running"}"#),
        Ok(parse(r#"{"running":false,"degraded":true}"#))
    );
    assert_eq!(
        answer(r#"{"op":"is_enabled","units":["a","b"]}"#),
        Ok(parse(r#"["enabled",""]"#))
    );
    let rows = answer(r#"{"op":"status","units":["x","a"]}"#).unwrap();
    assert_eq!(rows.as_array().unwrap().len(), 1);
    assert_eq!(rows[0]["enabled"], "enabled");
    assert_eq!(
        answer(r#"{"op":"status"}"#).unwrap().as_array().unwrap().len(),
        3
    );
}

#[test]
fn lists_are_answered_at_once() {
    let rows = answer(r#"{"op":"list_units","state":"failed"}"#).unwrap();
    assert_eq!(rows.as_array().unwrap().len(), 1);
    assert_eq!(rows[0]["unit"], "c.service");
    let rows = answer(r#"{"op":"list_unit_files"}"#).unwrap();
    assert_eq!(rows[0]["file"], "a.service");
    assert_eq!(answer(r#"{"op":"list_timers"}"#), Ok(parse("[]")));
    let rows = answer(r#"{"op":"show","units":["a"],"properties":["Id","MainPID"]}"#).unwrap();
    assert_eq!(rows, parse(r#"[{"Id":"a.service","MainPID":0}]"#));
    assert_eq!(
        answer(r#"{"op":"get_default"}"#),
        Ok(Value::from("multi-user.target"))
    );
    assert_eq!(
        answer(r#"{"op":"repo"}"#),
        Ok(parse(r#"{"root":"/units","roots":["/units"]}"#))
    );
    assert_eq!(
        answer(r#"{"op":"list_dependencies","name":"a"}"#),
        Ok(parse("[]"))
    );
    let cat = answer(r#"{"op":"cat","units":["a"]}"#).unwrap();
    assert_eq!(cat[0]["path"], "(synthesized)");
}

#[test]
fn the_journal_is_in_the_order_of_time() {
    let v = answer(r#"{"op":"journal","tail":2}"#).unwrap();
    assert_eq!(v["dir"], "/journal");
    assert_eq!(v["records"][0]["text"], "late");
    assert_eq!(v["records"][1]["text"], "later");
    assert_eq!(v["records"].as_array().unwrap().len(), 2);
    let all = select_records(&facts().records, &None, None, None);
    let order: Vec<&str> = all.iter().map(|r| r.text.as_str()).collect();
    assert_eq!(order, vec!["early", "late", "later"]);
    assert!(select_records(&facts().records, &None, None, Some(0)).is_empty());
}

#[test]
fn the_journal_holds_what_was_asked_for() {
    let mut records = facts().records;
    records.push(JournalRecord {
        secs: 2,
        unit: "b.service".into(),
        text: "other".into(),
    });
    let texts = |unit: Option<&str>, since: Option<u64>| -> Vec<String> {
        select_records(&records, &unit.map(String::from), since, None)
            .into_iter()
            .map(|r| r.text)
            .collect()
    };
    assert_eq!(texts(None, None), vec!["early", "other", "late", "later"]);
    assert_eq!(texts(None, Some(2)), vec!["other", "late", "later"]);
    assert_eq!(texts(Some("a.service"), Some(2)), vec!["late", "later"]);
    assert_eq!(texts(Some("b.service"), None), vec!["other"]);
    assert!(texts(Some("c.service"), None).is_empty());
    let v = answer(r#"{"op":"journal","unit":"a.service","since":3}"#).unwrap();
    assert_eq!(v["records"].as_array().unwrap().len(), 2);
    let v = answer(r#"{"op":"journal","unit":"x.service"}"#).unwrap();
    assert_eq!(v["records"].as_array().unwrap().len(), 0);
}

#[test]
fn stored_lines_are_read_back() {
    let line = stored_line(42, "two words");
    assert_eq!(line, "42 two words");
    let r = read_line("a.service", &line).unwrap();
    assert_eq!((r.secs, r.unit.as_str(), r.text.as_str()), (42, "a.service", "two words"));
    assert_eq!(read_line("a.service", "no time"), None);
    assert_eq!(read_line("a.service", "42"), None);
}

#[test]
fn resetting_changes_the_units() {
    let mut mgr = manager();
    let q = read_request_line(r#"{"op":"reset_failed","units":["c"]}"#).unwrap();
    assert!(matches!(
        run_op(&mut mgr, q, &facts()),
        Answer::Reply(Ok(Value::Null))
    ));
    assert_eq!(mgr.units.get("c.service").unwrap().active, ActiveState::Inactive);
}

#[test]
fn work_is_handed_out() {
    assert!(matches!(
        work(r#"{"op":"start","units":["a"]}"#),
        Work::Each(SequenceOp::Start, u) if u == vec!["a.service"]
    ));
    assert!(matches!(
        work(r#"{"op":"kill","units":["a"],"signal":"KILL"}"#),
        Work::Kill(u, s) if u == "a.service" && s == Signal::sigkill()
    ));
    assert!(matches!(
        work(r#"{"op":"isolate","name":"goal.target"}"#),
        Work::Isolate(stops, goal)
            if stops == vec!["a.service", "c.service"] && goal == "goal.target"
    ));
    assert!(matches!(work(r#"{"op":"daemon_reload"}"#), Work::LoadAll));
    assert!(matches!(work(r#"{"op":"shutdown"}"#), Work::Shutdown));
    assert!(matches!(
        work(r#"{"op":"set_default","name":"x"}"#),
        Work::SetDefault(n) if n == "x"
    ));
}

#[test]
fn a_sequence_ends_at_the_first_failure() {
    let mgr = manager();
    let units = vec!["a.service".to_string(), "b.service".to_string()];
    let mut s = Sequence::each(SequenceOp::Start, &units);
    assert!(matches!(s.step(Event::Begin, &mgr), Stage::Check(u) if u == "a.service"));
    assert!(matches!(
        s.step(Event::Masked(false), &mgr),
        Stage::Do(Lifecycle::Start, u) if u == "a.service"
    ));
    assert!(matches!(s.step(Event::Done(Ok(())), &mgr), Stage::Check(u) if u == "b.service"));
    assert!(matches!(
        s.step(Event::Masked(true), &mgr),
        Stage::Finished(Err(e)) if e == "Unit b.service is masked."
    ));
    let three = vec![
        "a.service".to_string(),
        "b.service".to_string(),
        "c.service".to_string(),
    ];
    let mut s = Sequence::each(SequenceOp::TryRestart, &three);
    assert!(matches!(
        s.step(Event::Begin, &mgr),
        Stage::Do(Lifecycle::Restart, _)
    ));
    assert!(matches!(
        s.step(Event::Done(Ok(())), &mgr),
        Stage::Do(Lifecycle::Start, u) if u == "c.service"
    ));
    assert!(matches!(
        s.step(Event::Done(Err("no".into())), &mgr),
        Stage::Finished(Err(e)) if e == "no"
    ));
    let mut s = Sequence::each(SequenceOp::TryRestart, &vec!["b.service".into()]);
    assert!(matches!(s.step(Event::Begin, &mgr), Stage::Finished(Ok(()))));
    let mut s = Sequence::isolate(&vec!["c.service".into()], "a.service");
    assert!(matches!(s.step(Event::Begin, &mgr), Stage::Do(Lifecycle::Stop, u) if u == "c.service"));
    assert!(matches!(
        s.step(Event::Done(Ok(())), &mgr),
        Stage::Do(Lifecycle::Start, u) if u == "a.service"
    ));
    assert!(matches!(
        s.step(Event::Done(Ok(())), &mgr),
        Stage::Finished(Ok(()))
    ));
    let mut none = Sequence::each(SequenceOp::Reload, &vec![]);
    assert!(matches!(none.step(Event::Begin, &mgr), Stage::Finished(Ok(()))));
}

#[test]
fn finished_work_is_replied_to() {
    assert_eq!(reply_done(Ok(())), Ok(Value::Null));
    assert_eq!(reply_done(Err("x".into())), Err("x".into()));
    assert_eq!(reply_loaded(&vec![]), Ok(Value::Null));
    assert_eq!(
        reply_loaded(&vec!["a".into(), "b".into()]),
        Err("a; b".into())
    );
    assert_eq!(
        reply_messages(&vec![Ok(vec!["a".into()]), Ok(vec!["b".into(), "c".into()])]),
        Ok(parse(r#"["a","b","c"]"#))
    );
    assert_eq!(
        reply_messages(&vec![Ok(vec!["a".into()]), Err("no".into()), Err("later".into())]),
        Err("no".into())
    );
}

#[test]
fn lines_are_answered_with_lines() {
    let mut mgr = manager();
    let mut serve = |line: &str| dispatch(&mut mgr, read_request_line(line), &facts());
    let read = |s: Served| match s {
        Served::Line(line) => {
            assert!(line.ends_with('\n'));
            read_reply_line(&line)
        }
        Served::Perform(w) => panic!("work: {w:?}"),
    };
    assert_eq!(
        read(serve(r#"{"op":"is_active","units":["a"]}"#)),
        Ok(parse(r#"{"states":[["a.service","active"]],"exit":0}"#))
    );
    assert_eq!(
        read(serve(r#"{"op":"dance"}"#)),
        Err("unknown op `dance`".into())
    );
    assert!(read(serve("no json"))
        .unwrap_err()
        .starts_with("bad request: "));
    assert!(matches!(
        serve(r#"{"op":"stop","units":["a"]}"#),
        Served::Perform(Work::Each(SequenceOp::Stop, u)) if u == vec!["a.service"]
    ));
}

#[test]
fn a_client_sees_what_the_manager_sees() {
    let mut mgr = manager();
    let names = vec!["a".to_string(), "c".to_string()];
    let local = rystemd::control::is_active(&mgr, &names);
    let q = read_request_line(r#"{"op":"is_active","units":["a","c"]}"#);
    match dispatch(&mut mgr, q, &facts()) {
        Served::Line(line) => {
            let data = read_reply_line(&line).unwrap();
            assert_eq!(rystemd::control::active_states(&data), local);
            assert_eq!(local, vec!["active", "failed"]);
        }
        Served::Perform(_) => panic!("work"),
    }
    let local = mgr.list_dependencies("a", false, &facts().dirs);
    let q = read_request_line(r#"{"op":"list_dependencies","name":"a"}"#);
    match dispatch(&mut mgr, q, &facts()) {
        Served::Line(line) => {
            let data = read_reply_line(&line).unwrap();
            assert_eq!(rystemd::json::str_vec(&data), Some(local));
        }
        Served::Perform(_) => panic!("work"),
    }
}
