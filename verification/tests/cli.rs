use rystemd::cli::show::{epoch_with, fmt_epoch, render, Line, Tone};
use rystemd::cli::{cmd_is_enabled, run, After, Cli, Command, Plan, Reply, Shell};
use rystemd::client::Client;
use serde_json::Value;

fn parse(text: &str) -> Value {
    serde_json::from_str(text).unwrap()
}

fn plan(cmd: Command) -> Result<Plan, String> {
    let client = Client {
        user: false,
        socket: "/run/s".into(),
    };
    let cli = Cli {
        user: false,
        no_pager: false,
        cmd,
    };
    cli.dispatch(&client, "9.9")
}

fn request(cmd: Command) -> Value {
    match plan(cmd) {
        Ok(Plan::Send(v, _)) => v,
        _ => panic!("no request"),
    }
}

fn units(v: &[&str]) -> Vec<String> {
    v.iter().map(|s| s.to_string()).collect()
}

fn text(line: &Line) -> String {
    line.spans.iter().map(|s| s.text.as_str()).collect()
}

fn shown(reply: Reply, data: &str, now: u64) -> (Vec<String>, i32) {
    let (lines, code) = render(&reply, &parse(data), now).unwrap();
    (lines.iter().map(text).collect(), code)
}

#[test]
fn commands_ask_the_manager() {
    assert_eq!(
        request(Command::Start {
            units: units(&["web"])
        }),
        parse(r#"{"op":"start","units":["web.service"]}"#)
    );
    assert_eq!(
        request(Command::RestartOrStart {
            units: units(&["web"])
        })["op"],
        "restart"
    );
    assert_eq!(
        request(Command::Kill {
            unit: "web".into(),
            signal: None
        }),
        parse(r#"{"op":"kill","units":["web.service"],"signal":"SIGTERM"}"#)
    );
    assert_eq!(
        request(Command::Kill {
            unit: "web".into(),
            signal: Some("usr1".into())
        })["signal"],
        "10"
    );
    assert_eq!(
        plan(Command::Kill {
            unit: "web".into(),
            signal: Some("KILLLG".into())
        })
        .err(),
        Some("unknown signal `KILLLG`".into())
    );
    assert_eq!(
        request(Command::ListUnits {
            type_: Some(units(&["timer"])),
            state: None,
            no_legend: true,
            plain: false
        }),
        parse(r#"{"op":"list_units","types":["timer"],"state":null,"pattern":null}"#)
    );
    assert_eq!(
        request(Command::SetDefault {
            target: "graphical".into()
        }),
        parse(r#"{"op":"set_default","name":"graphical.service"}"#)
    );
    assert_eq!(
        request(Command::Poweroff),
        parse(r#"{"op":"shutdown"}"#)
    );
    assert_eq!(
        request(Command::Show {
            units: units(&["a"]),
            property: vec![],
            value: false
        }),
        parse(r#"{"op":"show","units":["a.service"]}"#)
    );
}

#[test]
fn enabling_is_done_without_the_manager() {
    assert!(matches!(
        plan(Command::Enable { units: units(&["a"]), now: true }),
        Ok(Plan::Enable(u, After::Send(v)))
            if u == vec!["a.service"] && v == parse(r#"{"op":"start","units":["a.service"]}"#)
    ));
    assert!(matches!(
        plan(Command::Enable { units: units(&["a"]), now: false }),
        Ok(Plan::Enable(_, After::Try(v))) if v == parse(r#"{"op":"daemon_reload"}"#)
    ));
    assert!(matches!(
        plan(Command::Disable { units: units(&["a"]), now: false }),
        Ok(Plan::Disable(_, After::Nothing))
    ));
    assert!(matches!(
        plan(Command::IsEnabled { units: units(&["a"]) }),
        Ok(Plan::IsEnabled(u)) if u == vec!["a"]
    ));
    assert!(matches!(
        plan(Command::Version),
        Ok(Plan::Print(s)) if s == "rustemctl 9.9"
    ));
    assert!(matches!(
        plan(Command::Completions { shell: Shell::Nushell }),
        Ok(Plan::Completions(Shell::Nushell))
    ));
}

#[test]
fn exit_codes() {
    assert_eq!(cmd_is_enabled(&units(&["enabled", "static"])), 0);
    assert_eq!(cmd_is_enabled(&units(&["enabled", "masked"])), 1);
    assert_eq!(cmd_is_enabled(&units(&["not-found", "disabled"])), 3);
    assert_eq!(run(&Ok(3)), (3, None));
    assert_eq!(run(&Err("no".into())), (1, Some(" no".into())));
    assert_eq!(
        shown(
            Reply::IsActive,
            r#"{"states":[["a","active"],["b","inactive"]],"exit":3}"#,
            0
        ),
        (units(&["active", "inactive"]), 3)
    );
    assert_eq!(shown(Reply::IsFailed, "[true]", 0), (units(&["failed"]), 0));
    assert_eq!(shown(Reply::IsFailed, "[false]", 0), (units(&["active"]), 1));
    assert_eq!(
        shown(Reply::IsSystemRunning, r#"{"degraded":true}"#, 0),
        (units(&["degraded"]), 1)
    );
    assert_eq!(
        shown(Reply::IsSystemRunning, "{}", 0),
        (units(&["running"]), 0)
    );
    assert_eq!(
        shown(Reply::GetDefault, "\"x.target\"", 0),
        (units(&["x.target"]), 0)
    );
    assert_eq!(shown(Reply::Quiet, "null", 0), (vec![], 0));
}

#[test]
fn a_status_is_shown() {
    let data = r#"[{"name":"a.service","description":"A","load":"loaded","active":"active",
        "sub":"running","path":"/u/a.service","enabled":"enabled","active_enter":0,
        "main_pid":12,"log":["one","two"]},
        {"name":"b.service","active":"failed","main_pid":0,"log":[]}]"#;
    let (lines, code) = shown(Reply::Status, data, 300);
    assert_eq!(code, 0);
    assert_eq!(
        lines,
        units(&[
            "● a.service - A",
            "     Loaded: loaded (/u/a.service; enabled)",
            "     Active: active (running) since Thu 1970-01-01 00:00:00; 5min ago",
            "   Main PID: 12",
            "      Logs:",
            "        one",
            "        two",
            "",
            "● b.service - ",
            "     Loaded: ? ()",
            "     Active: failed (?) since -",
        ])
    );
    let (lines, _) = render(&Reply::Status, &parse(data), 300).unwrap();
    assert_eq!(lines[0].spans[0].tone, Tone::Star);
    assert_eq!(lines[8].spans[0].tone, Tone::Error);
    assert_eq!(
        render(&Reply::Status, &parse("{}"), 0).err(),
        Some("bad status response".into())
    );
}

#[test]
fn tables_have_columns() {
    let data = r#"[{"unit":"a.service","loaded":"loaded","active":"active","sub":"running","description":"A unit"}]"#;
    let (lines, _) = shown(Reply::ListUnits { legend: true }, data, 0);
    assert_eq!(lines[0], format!("{:<32} {:<8} {:<8} {:<10} DESCRIPTION", "UNIT", "LOAD", "ACTIVE", "SUB"));
    assert_eq!(lines[1], format!("{:<32} {:<8} {:<8} {:<10} {}", "a.service", "loaded", "active", "running", "A unit"));
    let (lines, _) = shown(Reply::ListUnits { legend: false }, data, 0);
    assert_eq!(lines.len(), 1);

    let data = r#"[{"file":"a.service","state":"enabled"}]"#;
    let (lines, _) = shown(Reply::ListUnitFiles { legend: true }, data, 0);
    assert_eq!(lines[0], format!("{:<32} STATE", "UNIT FILE"));
    assert_eq!(lines[1], format!("{:<32} enabled", "a.service"));

    let data = r#"[{"unit":"t.timer","activates":"t.service","next":null,"next_left":90,"last":0,"last_passed":60}]"#;
    let (lines, _) = shown(Reply::ListTimers { legend: true }, data, 60);
    assert_eq!(
        lines[0],
        format!(
            "{:<26} {:<12} {:<26} {:<12} {:<20} ACTIVATES",
            "NEXT", "LEFT", "LAST", "PASSED", "UNIT"
        )
    );
    assert_eq!(
        lines[1],
        format!(
            "{:<26} {:<12} {:<26} {:<12} {:<20} {}",
            "-", "1min left", "Thu 1970-01-01 00:00:00; 1min ago", "1min ago", "t.timer", "t.service"
        )
    );
}

#[test]
fn files_and_properties_are_shown() {
    let data = r##"[{"unit":"a.service","path":"/u/a.service","text":"[Unit]\n"}]"##;
    assert_eq!(
        shown(Reply::Cat, data, 0).0,
        units(&["# a.service", "# /u/a.service", "[Unit]\n"])
    );
    let data = r#"[{"MainPID":-3,"Id":"a.service","Flag":true}]"#;
    let all = Reply::Show {
        property: vec![],
        value: false,
    };
    assert_eq!(
        shown(all, data, 0).0,
        units(&["Flag=true", "Id=a.service", "MainPID=-3", ""])
    );
    let data = r#"[{"A":[1,"x"],"B":{"z":1,"a":null},"C":null,"D":18446744073709551615}]"#;
    let all = Reply::Show {
        property: vec![],
        value: true,
    };
    assert_eq!(
        shown(all, data, 0).0,
        units(&[
            "[1,\"x\"]",
            "{\"a\":null,\"z\":1}",
            "null",
            "18446744073709551615",
            ""
        ])
    );
    let data = r#"[{"MainPID":-3,"Id":"a.service","Flag":true}]"#;
    let one = Reply::Show {
        property: units(&["Id"]),
        value: true,
    };
    assert_eq!(shown(one.clone(), data, 0).0, units(&["a.service", ""]));
    assert_eq!(
        render(&one, &parse("[1]"), 0).err(),
        Some("bad show response".into())
    );
}

#[test]
fn times_are_shown_with_their_age() {
    assert_eq!(
        fmt_epoch(1_700_000_000, 1_700_003_600),
        "Tue 2023-11-14 22:13:20; 1h ago"
    );
    // A time to come is now.
    assert_eq!(fmt_epoch(10, 0), "Thu 1970-01-01 00:00:10; 0s ago");
    // A time that no calendar holds has no date.
    assert_eq!(fmt_epoch(9_000_000_000_000, 9_000_000_000_001), "; 1s ago");
    assert_eq!(epoch_with(&Some("then".into()), 5, 65), "then; 1min ago");
}

#[test]
fn every_value_has_a_text() {
    let all = Reply::Show {
        property: vec![],
        value: false,
    };
    let data = r#"[{"Big":1e300,"List":[1.5,-0.25],"Share":0.5}]"#;
    assert_eq!(
        shown(all.clone(), data, 0).0,
        units(&["Big=1e+300", "List=[1.5,-0.25]", "Share=0.5", ""])
    );
    let mut deep = Value::Null;
    for _ in 0..200 {
        deep = Value::Array(vec![deep]);
    }
    let mut row = parse("{}");
    row["Deep"] = deep;
    let (lines, _) = render(&all, &Value::Array(vec![row]), 0).unwrap();
    let expected = format!("Deep={}null{}", "[".repeat(200), "]".repeat(200));
    assert_eq!(text(&lines[0]), expected);
}
