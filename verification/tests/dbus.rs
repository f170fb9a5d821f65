use rystemd::dbus::{
    call, failure_message, get_unit, list_units, live_message, start_unit, stop_unit, BridgeStep,
    CallFault, DbEvent, DbReply, UnitEntry, Watches,
};
use rystemd::table::Table;

fn entry(name: &str) -> UnitEntry {
    UnitEntry {
        name: name.into(),
        load: "loaded".into(),
        active: "active".into(),
        sub: "running".into(),
        description: "d".into(),
    }
}

fn owners(pairs: &[(&str, bool)]) -> Table<bool> {
    let mut t = Table::new();
    for (n, b) in pairs {
        t.insert(n.to_string(), *b);
    }
    t
}

#[test]
fn replies_become_results() {
    let rows = list_units(&Ok(DbReply::UnitList(vec![entry("a"), entry("b")]))).unwrap();
    assert_eq!(rows.len(), 2);
    assert_eq!(
        rows[1],
        (
            "b".into(),
            "loaded".into(),
            "active".into(),
            "running".into(),
            "d".into()
        )
    );
    assert_eq!(
        list_units(&Ok(DbReply::UnitStarted)),
        Err("unexpected reply".into())
    );
    assert_eq!(get_unit(&Ok(DbReply::Unit(None))), Err("no such unit".into()));
    assert_eq!(get_unit(&Ok(DbReply::Unit(Some(entry("x"))))).unwrap().0, "x");
    assert_eq!(start_unit(&Ok(DbReply::UnitStarted)), Ok(()));
    assert_eq!(
        start_unit(&Ok(DbReply::UnitStopped)),
        Err("unexpected reply".into())
    );
    assert_eq!(
        stop_unit(&Ok(DbReply::Error("busy".into()))),
        Err("busy".into())
    );
    assert_eq!(stop_unit(&Ok(DbReply::UnitStopped)), Ok(()));
    assert_eq!(
        stop_unit(&call(Err(CallFault::Timeout))),
        Err("manager did not reply (timeout)".into())
    );
    assert_eq!(
        call(Err(CallFault::Closed)),
        Err("manager channel closed".into())
    );
    assert_eq!(call(Ok(DbReply::UnitStarted)), Ok(DbReply::UnitStarted));
}

#[test]
fn an_acquired_name_is_reported_once() {
    let mut w = Watches::new();
    assert_eq!(w.add("com.a", Some(false)), None);
    assert_eq!(
        w.add("com.b", Some(true)),
        Some(DbEvent::NameAcquired("com.b".into()))
    );
    assert_eq!(w.add("com.c", None), None);
    assert!(!w.names.contains("com.c"));
    let now = owners(&[("com.a", true), ("com.b", true), ("com.z", true)]);
    assert_eq!(w.poll(&now), vec!["com.a"]);
    assert!(w.poll(&now).is_empty());
    // A name that could not be looked at stays as it was.
    assert!(w.poll(&owners(&[])).is_empty());
    assert!(w.poll(&owners(&[("com.a", false)])).is_empty());
    assert_eq!(w.poll(&now), vec!["com.a"]);
    w.remove("com.a");
    assert!(w.poll(&owners(&[("com.a", true)])).is_empty());
}

#[test]
fn the_bridge_is_logged() {
    assert_eq!(
        failure_message(BridgeStep::Connect, true, "gone"),
        "D-Bus: failed to connect to session bus: gone"
    );
    assert_eq!(
        failure_message(BridgeStep::Register, false, "x"),
        "D-Bus: failed to register manager interface: x"
    );
    assert_eq!(
        failure_message(BridgeStep::RequestName, false, "x"),
        "D-Bus: failed to request name org.rustemd.Manager1: x"
    );
    assert_eq!(
        failure_message(BridgeStep::Proxy, false, "x"),
        "D-Bus: failed to create DBus proxy: x"
    );
    assert_eq!(
        live_message(false),
        "D-Bus: manager interface live at org.rustemd.Manager1 (system bus)"
    );
}
