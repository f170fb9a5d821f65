use rystemd::control::{TimerInfo, UnitFileInfo, UnitStatus, UnitSummary};
use rystemd::tui::render::{draw_detail, draw_list, draw_status, draw_title};
use rystemd::tui::theme::{enabled_color, highlight_style, state_color, Color};
use rystemd::tui::{
    connect, effective_size, is_due, is_fullscreen, Action, App, Effect, Key, KeyCode, Tab, DEFAULT_COLS,
    DEFAULT_ROWS,
};

#[test]
fn effective_size_falls_back_when_terminal_is_unsized() {
    assert_eq!(effective_size(Some((0, 0))), (DEFAULT_COLS, DEFAULT_ROWS));
    assert_eq!(effective_size(Some((0, 24))), (DEFAULT_COLS, DEFAULT_ROWS));
    assert_eq!(effective_size(Some((100, 30))), (100, 30));
    assert_eq!(effective_size(None), (DEFAULT_COLS, DEFAULT_ROWS));
}

fn summary(name: &str) -> UnitSummary {
    UnitSummary {
        unit: name.into(),
        loaded: "loaded".into(),
        active: "active".into(),
        sub: "running".into(),
        description: "a unit".into(),
    }
}

fn timer(name: &str, activates: &str) -> TimerInfo {
    TimerInfo {
        unit: name.into(),
        activates: activates.into(),
        next: None,
        next_left: Some(90),
        last: None,
        last_passed: None,
        spec_strings: vec![],
    }
}

fn key(code: KeyCode) -> Key {
    Key {
        code,
        control: false,
    }
}

fn loaded() -> App {
    let mut app = App::new(false);
    let effect = app.refresh(
        vec![
            summary("alpha.service"),
            summary("Beta.service"),
            summary("gamma.target"),
        ],
        vec![summary("alpha.service"), summary("Beta.service")],
        vec![timer("tick.timer", "tock.service")],
        vec![UnitFileInfo {
            file: "x.service".into(),
            path: "/units/x.service".into(),
            state: "masked".into(),
        }],
        "multi-user.target".into(),
    );
    assert_eq!(effect, Effect::Detail(Some("alpha.service".into())));
    app
}

#[test]
fn keys_move_the_selection() {
    let mut app = loaded();
    assert_eq!(
        app.handle_key(key(KeyCode::Down)),
        Effect::Detail(Some("Beta.service".into()))
    );
    app.handle_key(key(KeyCode::PageDown));
    assert_eq!(app.selected, 2);
    app.handle_key(key(KeyCode::Char('j')));
    assert_eq!(app.selected, 2);
    app.handle_key(key(KeyCode::Home));
    assert_eq!(app.selected, 0);
    app.handle_key(key(KeyCode::End));
    assert_eq!(app.selected, 2);
    app.handle_key(key(KeyCode::PageUp));
    assert_eq!(app.selected, 0);
    app.handle_key(key(KeyCode::Char('k')));
    assert_eq!(app.selected, 0);
}

#[test]
fn tabs_are_changed_round() {
    let mut app = loaded();
    for t in [Tab::Services, Tab::Timers, Tab::Files, Tab::Units] {
        app.handle_key(key(KeyCode::Tab));
        assert_eq!(app.tab, t);
    }
    app.handle_key(key(KeyCode::BackTab));
    assert_eq!(app.tab, Tab::Files);
    assert_eq!(
        app.handle_key(key(KeyCode::Char('3'))),
        Effect::Detail(Some("tock.service".into()))
    );
    assert_eq!(app.handle_key(key(KeyCode::Char('3'))), Effect::Nothing);
    assert_eq!(
        app.handle_key(key(KeyCode::Char('s'))),
        Effect::Act(Action::Start, "tick.timer".into())
    );
    assert_eq!(Tab::ALL[3].label(), "Unit files");
    assert_eq!(Tab::Files.index(), 3);
}

#[test]
fn the_filter_ignores_case() {
    let mut app = loaded();
    app.handle_key(key(KeyCode::End));
    app.handle_key(key(KeyCode::Char('/')));
    assert!(app.searching);
    assert_eq!(app.selected, 0);
    for c in "BETA".chars() {
        app.handle_key(key(KeyCode::Char(c)));
    }
    assert_eq!(app.visible_indices(), vec![1]);
    assert_eq!(app.selected_target(), Some("Beta.service".into()));
    app.handle_key(key(KeyCode::Backspace));
    assert_eq!(app.filter, "BET");
    app.handle_key(key(KeyCode::Enter));
    assert!(!app.searching);
    assert_eq!(app.visible_indices(), vec![1]);
    app.handle_key(key(KeyCode::Char('/')));
    app.handle_key(key(KeyCode::Char('q')));
    assert!(app.running);
    assert_eq!(app.action_name(), None);
    app.handle_key(key(KeyCode::Esc));
    assert_eq!(app.filter, "");
    assert_eq!(app.visible_indices(), vec![0, 1, 2]);
    app.handle_key(key(KeyCode::Char('/')));
    app.handle_key(key(KeyCode::Backspace));
    assert!(!app.searching);
}

#[test]
fn control_q_quits_while_searching() {
    let mut app = loaded();
    app.handle_key(key(KeyCode::Char('/')));
    app.handle_key(Key {
        code: KeyCode::Char('q'),
        control: true,
    });
    assert!(!app.running);
    let mut app = loaded();
    app.handle_key(key(KeyCode::Esc));
    assert!(!app.running);
}

#[test]
fn actions_report_what_they_did() {
    let mut app = loaded();
    assert_eq!(
        app.handle_key(key(KeyCode::Char('e'))),
        Effect::Act(Action::Enable, "alpha.service".into())
    );
    let done = Ok(vec!["one".to_string(), "two".to_string()]);
    assert_eq!(
        app.acted(Action::Enable, "alpha.service", &done),
        Effect::Refresh
    );
    assert_eq!(
        app.status,
        Some(("enabled alpha.service: one, two".into(), false))
    );
    assert_eq!(
        app.acted(Action::Stop, "alpha.service", &Err("no".into())),
        Effect::Nothing
    );
    assert_eq!(app.status, Some(("no".into(), true)));
    assert_eq!(app.handle_key(key(KeyCode::Char('R'))), Effect::ReloadDaemon);
    assert_eq!(app.handle_key(key(KeyCode::Char('f'))), Effect::Refresh);
    assert_eq!(app.status, Some(("refreshed".into(), false)));
    let mut empty = App::new(true);
    assert_eq!(empty.handle_key(key(KeyCode::Char('x'))), Effect::Nothing);
    assert_eq!(empty.status, Some(("nothing selected".into(), true)));
}

#[test]
fn loading_keeps_the_selection_inside() {
    let mut app = loaded();
    app.handle_key(key(KeyCode::End));
    app.refresh(
        vec![summary("alpha.service")],
        vec![],
        vec![],
        vec![],
        String::new(),
    );
    assert_eq!(app.selected, 0);
    app.refresh(vec![], vec![], vec![], vec![], String::new());
    assert_eq!(app.selected, 0);
    assert!(app.visible_indices().is_empty());
}

fn text(row: &rystemd::tui::render::Row) -> String {
    row.pieces.iter().map(|p| p.text.as_str()).collect()
}

#[test]
fn rows_are_drawn() {
    let mut app = loaded();
    assert_eq!(
        text(&draw_title(&app)),
        "rystemd-tui · system manager · default multi-user.target"
    );
    let rows = draw_list(&app);
    assert_eq!(rows.len(), 3);
    assert_eq!(text(&rows[0]), " ● alpha.service (running)  a unit");
    assert_eq!(rows[0].pieces[1].color, Some(Color::Green));
    app.handle_key(key(KeyCode::Char('3')));
    assert_eq!(
        text(&draw_list(&app)[0]),
        " 1min        tick.timer  → tock.service"
    );
    app.handle_key(key(KeyCode::Char('4')));
    let row = &draw_list(&app)[0];
    assert_eq!(text(row), " masked      x.service  /units/x.service");
    assert_eq!(row.pieces[1].color, Some(Color::Yellow));
    assert!(text(&draw_status(&app)).starts_with("q/Esc quit"));
    app.handle_key(key(KeyCode::Char('/')));
    app.handle_key(key(KeyCode::Char('z')));
    assert!(text(&draw_status(&app)).ends_with("reload-daemon  /z"));
}

#[test]
fn the_status_of_the_selected_unit_is_drawn() {
    let mut app = loaded();
    assert_eq!(text(&draw_detail(&app, 0)[0]), "(nothing selected)");
    app.refresh_detail(vec![UnitStatus {
        name: "alpha.service".into(),
        description: "a unit".into(),
        load: "loaded".into(),
        active: "failed".into(),
        sub: "failed".into(),
        result: "exit-code".into(),
        main_pid: Some(42),
        path: Some("/units/alpha.service".into()),
        active_enter: Some(100),
        log: (0..15).map(|i| format!("line {i}")).collect(),
        enabled: "enabled".into(),
    }]);
    let rows: Vec<String> = draw_detail(&app, 400).iter().map(text).collect();
    assert_eq!(rows[0], "alpha.service — a unit");
    assert_eq!(rows[1], "");
    assert_eq!(rows[2], " Loaded: loaded (/units/alpha.service)");
    assert_eq!(rows[3], " Active: failed (failed) since 5min ago");
    assert_eq!(rows[4], "Main PID: 42");
    assert_eq!(rows[5], " Enabled: enabled");
    assert_eq!(rows[7], "Logs:");
    assert_eq!(rows[8], "  line 0");
    assert_eq!(rows.len(), 8 + 12);
}

#[test]
fn colors_follow_the_state() {
    assert_eq!(state_color("running"), Color::Green);
    assert_eq!(state_color("failed"), Color::Red);
    assert_eq!(state_color("reloading"), Color::Yellow);
    assert_eq!(state_color("inactive"), Color::Gray);
    assert_eq!(enabled_color("static"), Color::Green);
    assert_eq!(enabled_color("disabled"), Color::Gray);
    assert_eq!(highlight_style(), (Color::Blue, Color::White));
    assert!(is_fullscreen(Some((1, 1))));
    assert!(!is_fullscreen(None));
}

#[test]
fn a_missing_manager_is_explained() {
    assert_eq!(
        connect(true, "refused"),
        "no user manager reachable — start one with `rustemd daemon --user` (refused)"
    );
    assert_eq!(
        connect(false, "refused"),
        "no system manager reachable — start one with `rustemd daemon` (refused)"
    );
}

#[test]
fn the_filter_ignores_case_beyond_ascii() {
    let mut app = App::new(false);
    app.refresh(
        vec![summary("Über.service"), summary("other.service")],
        vec![],
        vec![],
        vec![],
        String::new(),
    );
    app.handle_key(key(KeyCode::Char('/')));
    app.handle_key(key(KeyCode::Char('Ü')));
    assert_eq!(app.visible_indices(), vec![0]);
}

#[test]
fn everything_is_loaded_again_after_two_seconds() {
    assert!(!is_due(0));
    assert!(!is_due(1_999));
    assert!(is_due(2_000));
    assert!(is_due(u64::MAX));
}
