use rystemd::manager::deps::{closure_conflicts, start_closure, stop_propagate};
use rystemd::manager::state::{ActiveState, LoadState, Unit};
use rystemd::table::Table;
use rystemd::unit::config::{InstallConfig, UnitConfig, UnitFile, UnitKind};

fn mk(name: &str, req: &[&str], want: &[&str], after: &[&str]) -> Unit {
    let mut u = Unit::new(name, UnitKind::Service, 0);
    u.load = LoadState::Loaded;
    u.file = Some(UnitFile {
        path: None,
        unit: UnitConfig {
            requires: req.iter().map(|s| s.to_string()).collect(),
            wants: want.iter().map(|s| s.to_string()).collect(),
            after: after.iter().map(|s| s.to_string()).collect(),
            ..Default::default()
        },
        service: None,
        timer: None,
        socket: None,
        mount: None,
        install: InstallConfig::default(),
    });
    u
}

fn table(units: Vec<Unit>) -> Table<Unit> {
    let mut t = Table::new();
    for u in units {
        t.insert(u.name.clone(), u);
    }
    t
}

#[test]
fn closure_transitive() {
    let t = table(vec![
        mk("a", &["b"], &[], &[]),
        mk("b", &["c"], &[], &[]),
        mk("c", &[], &[], &[]),
    ]);
    let (needs, _, _) = start_closure(&t, "a");
    assert!(needs.contains(&"b".to_string()));
    assert!(needs.contains(&"c".to_string()));
    let _ = ActiveState::Inactive;
}

#[test]
fn stop_propagates_to_who_requires() {
    let t = table(vec![
        mk("app", &["db"], &[], &[]),
        mk("db", &[], &[], &[]),
        mk("other", &[], &[], &[]),
    ]);
    let to_stop = stop_propagate(&t, "db");
    assert_eq!(to_stop, vec!["app".to_string()]);
}

#[test]
fn circles_end() {
    let t = table(vec![mk("a", &["b"], &[], &[]), mk("b", &["a"], &[], &[])]);
    let (needs, _, _) = start_closure(&t, "a");
    assert!(needs.contains(&"b".to_string()));
    let mut stops = stop_propagate(&t, "a");
    stops.sort();
    assert!(stops.contains(&"b".to_string()));
    assert!(closure_conflicts(&t, "a").is_empty());
}

#[test]
fn the_last_name_found_is_followed_first() {
    let t = table(vec![
        mk("a", &["b", "a", "c", "b"], &[], &[]),
        mk("b", &["d"], &[], &[]),
        mk("c", &["e", "a", "gone"], &[], &[]),
    ]);
    let (needs, weak, _) = start_closure(&t, "a");
    assert_eq!(needs, vec!["b", "c", "e", "a", "gone", "d"]);
    assert!(weak.is_empty());
    assert!(start_closure(&t, "nowhere").0.is_empty());
}
