//! What the keys of the terminal interface do, and what its rows show.

use vstd::prelude::*;

use crate::control::{TimerInfo, UnitFileInfo, UnitStatus, UnitSummary};
use crate::order::views;
use crate::text::{decimal_int, joined, opt_text, padded, within, Text};
use crate::timespan::left_text;
use crate::tui::render::{
    ago_text, bold, detail_enabled, detail_head, detail_lines, detail_log, detail_pid, detail_rows,
    file_marks, left_of, list_rows, raw, status_marks, styled, timer_marks, title_marks,
    unit_marks,
};
use crate::tui::theme::{color_of_enabled, color_of_state, Color};
use crate::tui::{
    acted, hit, hits, lowered, message_view, pressed, subject_of, tab_at,
    tab_index, tab_label, tab_names, target_of, visible, Action, App, Effect, Key, KeyCode, Screen,
    Tab, Wanted,
};

verus! {

/// A key without another one held down.
pub open spec fn plain_key(c: char) -> Key {
    Key { code: KeyCode::Char(c), control: false }
}

/// A key of this kind.
pub open spec fn key(code: KeyCode) -> Key {
    Key { code, control: false }
}

// ---- what is seen ---------------------------------------------------------------

/// The interface is seen as it is.
pub proof fn screens_show_the_interface(a: App)
    ensures
        a@.user == a.user && a@.tab == a.tab && a@.selected == a.selected,
        a@.filter == a.filter@ && a@.searching == a.searching && a@.running == a.running,
        a@.units == views(a.units@),
        a@.services == views(a.services@),
        a@.timers == views(a.timers@),
        a@.files == views(a.files@),
        a@.detail == views(a.detail@),
        a@.default_target == a.default_target@,
        a.status is None ==> a@.status is None,
        a.status is Some ==> a@.status == message_view(a.status),
{
}

/// What is asked of the rest of the program is seen as it is.
pub proof fn effects_say_what_is_wanted(a: Action, n: String, m: Option<String>)
    ensures
        Effect::Nothing@ is Nothing,
        Effect::Detail(m)@ == Wanted::Detail(opt_text(m)),
        Effect::Refresh@ is Refresh,
        Effect::Act(a, n)@ == Wanted::Act(a, n@),
        Effect::ReloadDaemon@ is ReloadDaemon,
{
}

/// The tabs have these names, and stand in this order.
pub proof fn tabs_have_these_names(t: Tab)
    ensures
        tab_label(t) == "Units"@ <==> t == Tab::Units,
        tab_label(t) == "Services"@ <==> t == Tab::Services,
        tab_label(t) == "Timers"@ <==> t == Tab::Timers,
        tab_label(t) == "Unit files"@ <==> t == Tab::Files,
        tab_at(tab_index(Tab::Units) + 1) == Tab::Services,
        tab_at(tab_index(Tab::Services) + 1) == Tab::Timers,
        tab_at(tab_index(Tab::Timers) + 1) == Tab::Files,
        tab_at(tab_index(Tab::Files) + 1) == Tab::Units,
{
    reveal_strlit("Units");
    reveal_strlit("Services");
    reveal_strlit("Timers");
    reveal_strlit("Unit files");
    assert("Units"@.len() == 5 && "Units"@[0] == 'U');
    assert("Services"@.len() == 8 && "Services"@[0] == 'S');
    assert("Timers"@.len() == 6 && "Timers"@[0] == 'T');
    assert("Unit files"@.len() == 10 && "Unit files"@[0] == 'U');
}

/// What is selected is the visible row of that place: an action is on the unit that the
/// row is about, and the details are those of the unit that it leads to, which for a
/// timer is the one that it activates.
pub proof fn selection_is_the_visible_row(s: Screen)
    requires
        s.selected < visible(s).len(),
    ensures
        s.tab == Tab::Units ==> subject_of(s) == Some(s.units[visible(s)[s.selected as int]].unit),
        s.tab == Tab::Services ==> subject_of(s) == Some(
            s.services[visible(s)[s.selected as int]].unit,
        ),
        s.tab == Tab::Timers ==> subject_of(s) == Some(
            s.timers[visible(s)[s.selected as int]].unit,
        ),
        s.tab == Tab::Files ==> subject_of(s) == Some(s.files[visible(s)[s.selected as int]].file),
        s.tab != Tab::Timers ==> target_of(s) == subject_of(s),
        s.tab == Tab::Timers ==> target_of(s) == Some(
            s.timers[visible(s)[s.selected as int]].activates,
        ),
{
}

proof fn places_of_hits(names: Seq<Text>, q: Text, i: int)
    ensures
        hits(names, q).contains(i) <==> 0 <= i < names.len() && hit(names[i], q),
    decreases names.len(),
{
    if names.len() > 0 {
        let init = names.drop_last();
        let k = names.len() - 1;
        places_of_hits(init, q, i);
        let a = hits(init, q);
        let b = hits(names, q);
        if 0 <= i < init.len() {
            assert(init[i] == names[i]);
        }
        if a.contains(i) {
            let j = a.index_of(i);
            assert(b[j] == i);
        }
        if hit(names[k], q) && i == k {
            assert(b[a.len() as int] == i);
        }
        if b.contains(i) && !a.contains(i) {
            let j = b.index_of(i);
            if j < a.len() {
                assert(a[j] == i);
            }
        }
    }
}

/// A row is visible where its name holds the filter, in lower case; without a filter
/// all are.
pub proof fn rows_are_visible_where_they_match(s: Screen, i: int)
    ensures
        visible(s).contains(i) <==> 0 <= i < tab_names(s, s.tab).len() && (lowered(s.filter).len()
            == 0 || within(lowered(tab_names(s, s.tab)[i]), lowered(s.filter))),
        s.tab == Tab::Units ==> tab_names(s, s.tab).len() == s.units.len(),
        s.tab == Tab::Services ==> tab_names(s, s.tab).len() == s.services.len(),
        s.tab == Tab::Timers ==> tab_names(s, s.tab).len() == s.timers.len(),
        s.tab == Tab::Files ==> tab_names(s, s.tab).len() == s.files.len(),
        s.tab == Tab::Units && 0 <= i < s.units.len() ==> tab_names(s, s.tab)[i] == s.units[i].unit,
        s.tab == Tab::Services && 0 <= i < s.services.len() ==> tab_names(s, s.tab)[i]
            == s.services[i].unit,
        s.tab == Tab::Timers && 0 <= i < s.timers.len() ==> tab_names(s, s.tab)[i]
            == s.timers[i].unit,
        s.tab == Tab::Files && 0 <= i < s.files.len() ==> tab_names(s, s.tab)[i] == s.files[i].file,
{
    places_of_hits(tab_names(s, s.tab), lowered(s.filter), i);
}

// ---- keys -----------------------------------------------------------------------

/// Each letter does its own action to the unit that is selected; where none is, that is
/// said.
pub proof fn letters_act_on_the_selection(s: Screen)
    requires
        !s.searching,
    ensures
        subject_of(s) is Some ==> pressed(s, plain_key('s')) == (
            s,
            Wanted::Act(Action::Start, subject_of(s)->0),
        ),
        subject_of(s) is None ==> pressed(s, plain_key('s')) == (
            Screen { status: Some(("nothing selected"@, true)), ..s },
            Wanted::Nothing,
        ),
        subject_of(s) is Some ==> pressed(s, plain_key('x')) == (
            s,
            Wanted::Act(Action::Stop, subject_of(s)->0),
        ),
        subject_of(s) is None ==> pressed(s, plain_key('x')) == (
            Screen { status: Some(("nothing selected"@, true)), ..s },
            Wanted::Nothing,
        ),
        subject_of(s) is Some ==> pressed(s, plain_key('r')) == (
            s,
            Wanted::Act(Action::Restart, subject_of(s)->0),
        ),
        subject_of(s) is None ==> pressed(s, plain_key('r')) == (
            Screen { status: Some(("nothing selected"@, true)), ..s },
            Wanted::Nothing,
        ),
        subject_of(s) is Some ==> pressed(s, plain_key('l')) == (
            s,
            Wanted::Act(Action::Reload, subject_of(s)->0),
        ),
        subject_of(s) is None ==> pressed(s, plain_key('l')) == (
            Screen { status: Some(("nothing selected"@, true)), ..s },
            Wanted::Nothing,
        ),
        subject_of(s) is Some ==> pressed(s, plain_key('e')) == (
            s,
            Wanted::Act(Action::Enable, subject_of(s)->0),
        ),
        subject_of(s) is None ==> pressed(s, plain_key('e')) == (
            Screen { status: Some(("nothing selected"@, true)), ..s },
            Wanted::Nothing,
        ),
        subject_of(s) is Some ==> pressed(s, plain_key('d')) == (
            s,
            Wanted::Act(Action::Disable, subject_of(s)->0),
        ),
        subject_of(s) is None ==> pressed(s, plain_key('d')) == (
            Screen { status: Some(("nothing selected"@, true)), ..s },
            Wanted::Nothing,
        ),
        pressed(s, plain_key('R')) == (s, Wanted::ReloadDaemon),
        pressed(s, plain_key('f')).1 == Wanted::Refresh,
        pressed(s, plain_key('q')) == (Screen { running: false, ..s }, Wanted::Nothing),
        pressed(s, key(KeyCode::Esc)) == (Screen { running: false, ..s }, Wanted::Nothing),
{
}

/// The numbers open the tabs, and so do the tab keys in turn; a tab that is opened
/// begins at its first row, without a filter.
pub proof fn tabs_are_opened(s: Screen)
    requires
        !s.searching,
    ensures
        pressed(s, plain_key('1')).0.tab == Tab::Units,
        pressed(s, plain_key('2')).0.tab == Tab::Services,
        pressed(s, plain_key('3')).0.tab == Tab::Timers,
        pressed(s, plain_key('4')).0.tab == Tab::Files,
        s.tab == Tab::Units ==> pressed(s, plain_key('1')) == (s, Wanted::Nothing),
        s.tab != Tab::Units ==> pressed(s, plain_key('1')).0 == (Screen {
            tab: Tab::Units,
            selected: 0,
            filter: seq![],
            searching: false,
            ..s
        }),
        pressed(s, key(KeyCode::Tab)).0 == (Screen {
            tab: tab_at(tab_index(s.tab) + 1),
            selected: 0,
            filter: seq![],
            searching: false,
            ..s
        }),
        pressed(s, key(KeyCode::BackTab)).0 == (Screen {
            tab: tab_at(tab_index(s.tab) - 1),
            selected: 0,
            filter: seq![],
            searching: false,
            ..s
        }),
{
}

/// The arrows move by one row and the page keys by ten, not beyond the ends; what is
/// then selected is loaded.
pub proof fn arrows_move_the_selection(s: Screen)
    requires
        !s.searching,
        s.selected < visible(s).len(),
    ensures
        ({
            let len = visible(s).len();
            let n = s.selected as int;
            &&& pressed(s, key(KeyCode::Down)).0.selected == if n + 1 < len {
                n + 1
            } else {
                n
            }
            &&& pressed(s, key(KeyCode::Up)).0.selected == if n > 0 {
                n - 1
            } else {
                0
            }
            &&& pressed(s, key(KeyCode::PageDown)).0.selected == if n + 10 < len {
                n + 10
            } else {
                len - 1
            }
            &&& pressed(s, key(KeyCode::PageUp)).0.selected == if n >= 10 {
                n - 10
            } else {
                0
            }
            &&& pressed(s, key(KeyCode::Home)).0.selected == 0
            &&& pressed(s, key(KeyCode::End)).0.selected == len - 1
        }),
        pressed(s, plain_key('j')) == pressed(s, key(KeyCode::Down)),
        pressed(s, plain_key('k')) == pressed(s, key(KeyCode::Up)),
        pressed(s, key(KeyCode::Down)).1 == Wanted::Detail(
            target_of(pressed(s, key(KeyCode::Down)).0),
        ),
        pressed(s, key(KeyCode::Down)).0.tab == s.tab,
{
}

/// A search begins with `/`; the characters that are typed are its filter, and the keys
/// that end it do nothing else. Leaving it clears the filter, confirming it keeps it.
pub proof fn searches_filter_by_what_is_typed(s: Screen, c: char)
    ensures
        !s.searching ==> pressed(s, plain_key('/')) == (
            Screen { searching: true, filter: seq![], selected: 0, ..s },
            Wanted::Nothing,
        ),
        s.searching ==> pressed(s, plain_key(c)) == (
            Screen { filter: s.filter.push(c), selected: 0, ..s },
            Wanted::Nothing,
        ),
        s.searching ==> pressed(s, key(KeyCode::Esc)) == (
            Screen { searching: false, filter: seq![], ..s },
            Wanted::Nothing,
        ),
        s.searching ==> pressed(s, key(KeyCode::Enter)) == (
            Screen { searching: false, ..s },
            Wanted::Nothing,
        ),
        s.searching && s.filter.len() > 0 ==> pressed(s, key(KeyCode::Backspace)).0.filter
            == s.filter.drop_last() && pressed(s, key(KeyCode::Backspace)).0.searching,
        s.searching && s.filter.len() == 0 ==> !pressed(
            s,
            key(KeyCode::Backspace),
        ).0.searching,
{
}

/// What an action came to is said: what was done, and to which unit, or the error; after
/// a success everything is loaded again.
pub proof fn actions_are_reported(s: Screen, n: Text, m: Seq<Text>, e: Text)
    ensures
        acted(s, Action::Start, n, Ok(m)) == (
            Screen { status: Some(("started "@ + n, false)), ..s },
            Wanted::Refresh,
        ),
        acted(s, Action::Stop, n, Ok(m)).0.status == Some(("stopped "@ + n, false)),
        acted(s, Action::Restart, n, Ok(m)).0.status == Some(("restarted "@ + n, false)),
        acted(s, Action::Reload, n, Ok(m)).0.status == Some(("reloaded "@ + n, false)),
        acted(s, Action::Enable, n, Ok(m)).0.status == Some(
            ("enabled "@ + n + ": "@ + joined(m, ", "@), false),
        ),
        acted(s, Action::Disable, n, Ok(m)).0.status == Some(
            ("disabled "@ + n + ": "@ + joined(m, ", "@), false),
        ),
        acted(s, Action::DaemonReload, n, Ok(m)).0.status == Some(("daemon reloaded"@, false)),
        forall|a: Action|
            #[trigger] acted(s, a, n, Err(e)) == (
                Screen { status: Some((e, true)), ..s },
                Wanted::Nothing,
            ),
        forall|a: Action| (#[trigger] acted(s, a, n, Ok(m))).1 == Wanted::Refresh,
{
}

// ---- rows -----------------------------------------------------------------------

/// The row of a unit shows its name, its sub-state and its description, with a bullet in
/// the color of its state.
pub proof fn unit_rows_show_the_unit(u: UnitSummary)
    ensures
        unit_marks(u@)[1] == styled("●"@, color_of_state(u.active@)),
        unit_marks(u@)[3] == styled(u.unit@, Color::Cyan),
        unit_marks(u@)[5] == styled("("@ + u.sub@ + ")"@, Color::Gray),
        unit_marks(u@)[7] == styled(u.description@, Color::Gray),
        unit_marks(u@).len() == 8,
{
}

/// The row of a timer shows how long it is until its next trigger, the timer, and what it
/// activates.
pub proof fn timer_rows_show_the_timer(t: TimerInfo, n: i64)
    ensures
        timer_marks(t@)[1] == styled(padded(left_of(t.next_left), 12), Color::Yellow),
        timer_marks(t@)[2] == styled(t.unit@, Color::Cyan),
        timer_marks(t@)[4] == styled("→ "@ + t.activates@, Color::Gray),
        timer_marks(t@).len() == 5,
        n >= 0 ==> left_of(Some(n)) == left_text(n as nat),
        n < 0 ==> left_of(Some(n)) == "-"@,
        left_of(None) == "-"@,
{
}

/// The row of a unit file shows its state, the file and its path.
pub proof fn file_rows_show_the_file(f: UnitFileInfo)
    ensures
        file_marks(f@)[1] == styled(padded(f.state@, 12), color_of_enabled(f.state@)),
        file_marks(f@)[2] == styled(f.file@, Color::Cyan),
        file_marks(f@)[4] == styled(f.path@, Color::Gray),
        file_marks(f@).len() == 5,
{
}

/// The list has the visible rows of its tab, in order.
pub proof fn lists_show_the_visible_rows(s: Screen, k: int)
    ensures
        list_rows(s).len() == visible(s).len(),
        0 <= k < visible(s).len() && s.tab == Tab::Units ==> list_rows(s)[k] == unit_marks(
            s.units[visible(s)[k]],
        ),
        0 <= k < visible(s).len() && s.tab == Tab::Services ==> list_rows(s)[k] == unit_marks(
            s.services[visible(s)[k]],
        ),
        0 <= k < visible(s).len() && s.tab == Tab::Timers ==> list_rows(s)[k] == timer_marks(
            s.timers[visible(s)[k]],
        ),
        0 <= k < visible(s).len() && s.tab == Tab::Files ==> list_rows(s)[k] == file_marks(
            s.files[visible(s)[k]],
        ),
{
}

/// The details of a unit show its name and description, where it was loaded from, its
/// states, and its main process and enable state where it has them.
#[verifier::spinoff_prover]
#[verifier::rlimit(60)]
pub proof fn details_show_the_unit(u: UnitStatus, now: u64)
    ensures
        ({
            let h = detail_head(u@, now);
            &&& h.len() == 4
            &&& h[0][0] == bold(u.name@, Color::Cyan)
            &&& h[0][2] == styled(u.description@, Color::Gray)
            &&& h[2][1] == styled(u.load@, Color::Yellow)
            &&& u.path is Some ==> h[2][2] == raw(" ("@ + u.path->0@ + ")"@)
            &&& u.path is None ==> h[2][2] == raw(""@)
            &&& h[3][1] == styled(u.active@, color_of_state(u.active@))
            &&& h[3][2] == raw(" ("@ + u.sub@ + ")"@)
            &&& u.active_enter is Some ==> h[3][3] == raw(
                " since "@ + ago_text(u.active_enter->0, now),
            )
            &&& u.active_enter is None ==> h[3][3] == raw(""@)
        }),
        u.main_pid is None ==> detail_pid(u@).len() == 0,
        u.main_pid is Some ==> detail_pid(u@) == seq![
            seq![
                raw("Main PID: "@),
                styled(decimal_int(u.main_pid->0 as int), Color::LightCyan),
            ],
        ],
        u.enabled@.len() == 0 ==> detail_enabled(u@).len() == 0,
        u.enabled@.len() > 0 ==> detail_enabled(u@) == seq![
            seq![raw(" Enabled: "@), styled(u.enabled@, Color::Yellow)],
        ],
{
}

/// At most 12 lines of a unit's output are shown: the first ones, in order. How long ago
/// something was is counted from now, and is nothing for a time to come.
pub proof fn details_show_the_output(log: Seq<Text>, i: int, secs: u64, now: u64)
    ensures
        detail_lines(log).len() == if log.len() > 12 {
            12
        } else {
            log.len()
        },
        0 <= i < log.len() && i < 12 ==> detail_lines(log)[i] == seq![
            styled("  "@ + log[i], Color::Gray),
        ],
        now >= secs ==> ago_text(secs, now) == left_text((now - secs) as nat) + " ago"@,
        now < secs ==> ago_text(secs, now) == left_text(0) + " ago"@,
{
}

/// The title says whose manager it is, and which target is the default one.
pub proof fn titles_say_whose_manager_it_is(s: Screen)
    ensures
        title_marks(s)[0] == bold("rystemd-tui"@, Color::Cyan),
        s.user ==> title_marks(s)[1] == raw(" · user manager"@),
        !s.user ==> title_marks(s)[1] == raw(" · system manager"@),
        s.default_target.len() == 0 ==> title_marks(s).len() == 2,
        s.default_target.len() > 0 ==> title_marks(s)[2] == raw(
            " · default "@ + s.default_target,
        ),
{
}

/// The last message stands behind the hints, red where it is an error and green else;
/// where there is none, the filter of a search does.
pub proof fn messages_stand_behind_the_hints(s: Screen, m: Text)
    ensures
        s.status == Some((m, true)) ==> status_marks(s)[2] == styled(m, Color::Red),
        s.status == Some((m, false)) ==> status_marks(s)[2] == styled(m, Color::Green),
        s.status is None && s.searching ==> status_marks(s)[2] == styled(
            "/"@ + s.filter,
            Color::Yellow,
        ),
        s.status is None && !s.searching ==> status_marks(s).len() == 1,
{
}

/// The rows of the detail pane: the title, the state, and the log under a title of its own;
/// or that nothing is selected.
pub proof fn details_have_these_rows(s: Screen, now: u64)
    ensures
        s.detail.len() == 0 ==> detail_rows(s, now) == seq![
            seq![styled("(nothing selected)"@, Color::Gray)],
        ],
        s.detail.len() > 0 ==> {
            let u = s.detail[0];
            let rows = detail_rows(s, now);
            &&& rows[0][0] == bold(u.name, Color::Cyan)
            &&& rows[0][1] == raw(" — "@)
            &&& rows[0][2].text == u.description
            &&& rows[1] == seq![raw(""@)]
            &&& rows[2][0] == raw(" Loaded: "@)
            &&& rows[2][1].text == u.load
            &&& rows[3][0] == raw(" Active: "@)
            &&& rows[3][1] == styled(u.active, color_of_state(u.active))
            &&& rows.len() == 4 + detail_pid(u).len() + detail_enabled(u).len() + detail_log(
                u.log,
            ).len()
        },
{
}

/// The log of a unit stands under a title, behind an empty row.
pub proof fn logs_stand_under_a_title(log: Seq<Text>)
    ensures
        log.len() == 0 ==> detail_log(log).len() == 0,
        log.len() > 0 ==> detail_log(log).len() == 2 + detail_lines(log).len(),
        log.len() > 0 ==> detail_log(log)[0] == seq![raw(""@)] && detail_log(log)[1]
            == seq![bold("Logs:"@, Color::Cyan)],
        forall|i: int|
            log.len() > 0 && 0 <= i < detail_lines(log).len() ==> detail_log(log)[i + 2]
                == #[trigger] detail_lines(log)[i],
{
}

/// What `f` does is said.
pub proof fn refreshing_is_reported(s: Screen)
    requires
        !s.searching,
    ensures
        pressed(s, plain_key('f')).0 == (Screen { status: Some(("refreshed"@, false)), ..s }),
        pressed(s, plain_key('f')).1 == Wanted::Refresh,
        pressed(s, plain_key('R')) == (s, Wanted::ReloadDaemon),
{
}

} // verus!
