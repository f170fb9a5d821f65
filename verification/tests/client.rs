use rystemd::client::{request_line, request_of, Ask, Client};
use rystemd::control::{
    active_states, default_target_in, is_active, kill_signal, messages, normalize, query_names,
    required_messages, Error,
};
use rystemd::ipc::{read_request_line, Request, UnitsOp};
use rystemd::json::{line_of, str_vec};
use rystemd::manager::ops::Manager;
use rystemd::manager::state::{ActiveState, Unit};
use rystemd::names::normalize_unit;
use rystemd::platform::signal::Signal;
use rystemd::repo::store::Repo;
use rystemd::table::Table;
use rystemd::unit::config::UnitKind;
use serde_json::Value;

fn parse(text: &str) -> Value {
    serde_json::from_str(text).unwrap()
}

fn names(v: &[&str]) -> Vec<String> {
    v.iter().map(|s| s.to_string()).collect()
}

#[test]
fn clients_build_requests() {
    let c = Client {
        user: false,
        socket: "/run/s".into(),
    };
    assert_eq!(
        c.units_op("start", &names(&["a.service"])),
        parse(r#"{"op":"start","units":["a.service"]}"#)
    );
    assert_eq!(c.simple_op("repo"), parse(r#"{"op":"repo"}"#));
    assert_eq!(
        c.op_with("kill", &parse(r#"{"units":["a"],"signal":"9"}"#)),
        parse(r#"{"op":"kill","units":["a"],"signal":"9"}"#)
    );
    assert_eq!(c.op_with("x", &parse("[1]")), parse(r#"{"op":"x"}"#));
    assert_eq!(
        c.op_with("x", &parse(r#"{"op":"y"}"#)),
        parse(r#"{"op":"y"}"#)
    );
}

#[test]
fn requests_arrive() {
    let line = request_line(&Ask::Units {
        op: UnitsOp::Restart,
        units: names(&["web", "x.timer"]),
    });
    assert_eq!(line.matches('\n').count(), 1);
    assert!(matches!(
        read_request_line(&line),
        Ok(Request::Units { op: UnitsOp::Restart, units }) if units == vec!["web.service", "x.timer"]
    ));
    let line = request_line(&Ask::Kill {
        unit: "web".into(),
        signal: "USR1".into(),
    });
    assert!(matches!(
        read_request_line(&line),
        Ok(Request::Kill { unit, signal }) if unit == "web.service" && signal.as_raw() == 10
    ));
    let line = request_line(&Ask::Kill {
        unit: "web".into(),
        signal: "nosuch".into(),
    });
    assert_eq!(
        read_request_line(&line).err(),
        Some("unknown signal `nosuch`".into())
    );
    let line = request_line(&Ask::ListUnits {
        types: names(&["service"]),
        state: Some("failed".into()),
    });
    assert!(matches!(
        read_request_line(&line),
        Ok(Request::ListUnits { types, state: Some(s), pattern: None })
            if types == vec!["service"] && s == "failed"
    ));
    let line = request_line(&Ask::ListDependencies {
        unit: "web".into(),
        reverse: true,
    });
    assert!(matches!(
        read_request_line(&line),
        Ok(Request::ListDependencies { name, reverse: true }) if name == "web.service"
    ));
    let line = request_line(&Ask::Journal {
        unit: Some("a\nb".into()),
        since: None,
        tail: Some(3),
    });
    assert!(matches!(
        read_request_line(&line),
        Ok(Request::Journal { unit: Some(u), since: None, tail: Some(3) }) if u == "a\nb"
    ));
    for (ask, op) in [
        (Ask::ListUnitFiles, "list_unit_files"),
        (Ask::ListTimers, "list_timers"),
        (Ask::DaemonReload, "daemon_reload"),
        (Ask::GetDefault, "get_default"),
        (Ask::Repo, "repo"),
    ] {
        assert_eq!(request_of(&ask)["op"], op);
        assert!(read_request_line(&request_line(&ask)).is_ok());
    }
    let line = request_line(&Ask::Isolate { unit: "x".into() });
    assert!(matches!(read_request_line(&line), Ok(Request::Isolate { name }) if name == "x.service"));
    let line = request_line(&Ask::SetDefault { unit: "x.target".into() });
    assert!(matches!(read_request_line(&line), Ok(Request::SetDefault { name }) if name == "x.target"));
}

#[test]
fn replies_are_interpreted() {
    let v = parse(r#"{"states":[["a","active"],["b"],7,["c","failed"]]}"#);
    assert_eq!(active_states(&v), vec!["active", "failed"]);
    assert_eq!(messages(&parse(r#"["x",1,"y"]"#)), vec!["x", "y"]);
    assert!(messages(&parse("null")).is_empty());
    assert_eq!(
        required_messages(&parse("null"), "clean").err(),
        Some(Error("failed to parse clean result".into()))
    );
    assert_eq!(default_target_in(&parse("\"x.target\"")), "x.target");
    assert_eq!(default_target_in(&parse("null")), "default.target");
    assert_eq!(str_vec(&parse("3")), None);
    assert_eq!(Error("boom".into()).message(), "boom");
}

#[test]
fn names_are_normalized() {
    assert_eq!(normalize_unit("web"), "web.service");
    assert_eq!(normalize_unit("web.timer"), "web.timer");
    assert_eq!(
        normalize(&names(&["a", "a.service"])),
        vec!["a.service", "a.service"]
    );
}

#[test]
fn control_in_one_process() {
    let mut units = Table::new();
    let mut u = Unit::new("a.service", UnitKind::Service, 0);
    u.active = ActiveState::Activating;
    units.insert("a.service".to_string(), u);
    let mgr = Manager {
        units,
        repo: Repo::open("/units".into()),
    };
    assert_eq!(
        is_active(&mgr, &names(&["a", "b"])),
        vec!["activating", "unknown"]
    );
    assert_eq!(query_names(&mgr, &vec![]), vec!["a.service"]);
    assert_eq!(query_names(&mgr, &names(&["z"])), vec!["z.service"]);
    assert_eq!(kill_signal("SIGKILL").unwrap(), Signal::sigkill());
    assert_eq!(
        kill_signal("KILLLG").err(),
        Some(Error("unknown signal `KILLLG`".into()))
    );
}

#[test]
fn values_become_one_line() {
    let v = parse(r#"{"a":["x\ny",-3,18446744073709551615,true,null]}"#);
    let line = line_of(&v);
    assert_eq!(line.matches('\n').count(), 1);
    assert_eq!(parse(&line), v);
}
