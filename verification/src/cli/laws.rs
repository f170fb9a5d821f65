//! What the commands come to: what the manager is asked, and what is printed.

use vstd::prelude::*;

use crate::cli::show::{
    all_cats, all_statuses, bullet_tone, cat_lines, epoch_text, file_line, file_table, ink,
    loaded_text, log_lines, output_lines, passed_text, pid_lines, plain, property_line,
    property_lines, rendered, state_lines, state_tone, status_head, status_lines, time_text,
    timer_columns, timer_line, timer_table, unit_columns, unit_line, unit_table, value_text,
    wait_text, Ink, Tone,
};
use crate::cli::{
    course_of, kill_signal_of, type_list, worst_code, After, Command, Course, Display,
    Plan, Reply, Sequel, Shell,
};
use crate::client::{requests_arrive, Ask, Wish};
use crate::control::{
    all_normalized, cat_is_sent_field_by_field, cat_json, file_json,
    status_is_sent_field_by_field, status_json, summary_is_sent_field_by_field, summary_json,
    timer_is_sent_field_by_field, timer_json, unit_file_is_sent_field_by_field, CatEntry,
    TimerInfo, UnitFileInfo, UnitStatus, UnitSummary,
};
use crate::ipc::laws::{asks, plain_operations_are_asked_for, properties_are_asked_for};
use crate::ipc::{asked, Asked, UnitsOp};
use crate::json::{json_of, member_of, text_array, Json};
use crate::names::{normalized, normalized_is_final};
use crate::text::{decimal_int, opt_text, padded, texts, Text};
use crate::timespan::left_text;

verus! {

// ---- what is asked --------------------------------------------------------------

/// Does a command send a request that asks this of the manager, and is the reply
/// shown so?
pub open spec fn sends(c: Command, version: Text, q: Asked, d: Display) -> bool {
    &&& course_of(c, version) is Ok
    &&& course_of(c, version)->Ok_0 is Send
    &&& asked(course_of(c, version)->Ok_0->Send_0) == Ok::<Asked, Text>(q)
    &&& course_of(c, version)->Ok_0->Send_1 == d
}

/// Each command on units asks the manager for its own operation, on the units that
/// were given.
pub proof fn commands_on_units_arrive(units: Vec<String>, full: bool, version: Text)
    ensures
        sends(
            Command::Start { units },
            version,
            Asked::Units(UnitsOp::Start, all_normalized(texts(units@))),
            Display::Quiet,
        ),
        sends(
            Command::Stop { units },
            version,
            Asked::Units(UnitsOp::Stop, all_normalized(texts(units@))),
            Display::Quiet,
        ),
        sends(
            Command::Restart { units },
            version,
            Asked::Units(UnitsOp::Restart, all_normalized(texts(units@))),
            Display::Quiet,
        ),
        sends(
            Command::Reload { units },
            version,
            Asked::Units(UnitsOp::Reload, all_normalized(texts(units@))),
            Display::Quiet,
        ),
        sends(
            Command::RestartOrStart { units },
            version,
            Asked::Units(UnitsOp::Restart, all_normalized(texts(units@))),
            Display::Quiet,
        ),
        sends(
            Command::IsActive { units },
            version,
            Asked::Units(UnitsOp::IsActive, all_normalized(texts(units@))),
            Display::IsActive,
        ),
        sends(
            Command::IsFailed { units },
            version,
            Asked::Units(UnitsOp::IsFailed, all_normalized(texts(units@))),
            Display::IsFailed,
        ),
        sends(
            Command::Cat { units },
            version,
            Asked::Units(UnitsOp::Cat, all_normalized(texts(units@))),
            Display::Cat,
        ),
        sends(
            Command::Status { units, full },
            version,
            Asked::Units(UnitsOp::Status, all_normalized(texts(units@))),
            Display::Status,
        ),
{
    requests_arrive(Wish::Units(UnitsOp::Start, texts(units@)));
    requests_arrive(Wish::Units(UnitsOp::Stop, texts(units@)));
    requests_arrive(Wish::Units(UnitsOp::Restart, texts(units@)));
    requests_arrive(Wish::Units(UnitsOp::Reload, texts(units@)));
    requests_arrive(Wish::Units(UnitsOp::IsActive, texts(units@)));
    requests_arrive(Wish::Units(UnitsOp::IsFailed, texts(units@)));
    requests_arrive(Wish::Units(UnitsOp::Cat, texts(units@)));
    requests_arrive(Wish::Units(UnitsOp::Status, texts(units@)));
}

/// The commands that list things ask for them, with the filters that were given;
/// the legend is left out where that was asked.
pub proof fn listing_commands_arrive(
    type_: Option<Vec<String>>,
    state: Option<String>,
    no_legend: bool,
    flag: bool,
    version: Text,
)
    ensures
        sends(
            Command::ListUnits { type_, state, no_legend, plain: flag },
            version,
            Asked::ListUnits(
                if type_ is Some {
                    texts(type_->0@)
                } else {
                    seq![]
                },
                opt_text(state),
                None,
            ),
            Display::ListUnits(!no_legend),
        ),
        sends(
            Command::ListUnitFiles { no_legend },
            version,
            Asked::ListUnitFiles,
            Display::ListUnitFiles(!no_legend),
        ),
        sends(
            Command::ListTimers { no_legend, all: flag },
            version,
            Asked::ListTimers,
            Display::ListTimers(!no_legend),
        ),
{
    requests_arrive(Wish::ListUnits(type_list(type_), opt_text(state)));
    requests_arrive(Wish::ListUnitFiles);
    requests_arrive(Wish::ListTimers);
}

/// So do the commands on the manager itself.
pub proof fn manager_commands_arrive(target: String, version: Text)
    ensures
        sends(Command::DaemonReload, version, Asked::DaemonReload, Display::Quiet),
        sends(Command::GetDefault, version, Asked::GetDefault, Display::GetDefault),
        sends(
            Command::SetDefault { target },
            version,
            Asked::SetDefault(normalized(target@)),
            Display::Quiet,
        ),
        sends(
            Command::Isolate { target },
            version,
            Asked::Isolate(normalized(target@)),
            Display::Quiet,
        ),
        sends(
            Command::IsSystemRunning,
            version,
            Asked::IsSystemRunning,
            Display::IsSystemRunning,
        ),
        sends(Command::Poweroff, version, Asked::Shutdown, Display::Quiet),
        course_of(Command::Version, version) == Ok::<Course, Text>(
            Course::Print("rustemctl "@ + version),
        ),
{
    requests_arrive(Wish::DaemonReload);
    requests_arrive(Wish::GetDefault);
    requests_arrive(Wish::SetDefault(target@));
    requests_arrive(Wish::Isolate(target@));
    let m = Map::<Text, Json>::empty().insert("op"@, Json::Str("is_system_running"@));
    assert(asks(m, "is_system_running"@));
    plain_operations_are_asked_for(m);
    let p = Map::<Text, Json>::empty().insert("op"@, Json::Str("shutdown"@));
    assert(asks(p, "shutdown"@));
    plain_operations_are_asked_for(p);
}

/// `show` asks for all properties of the units; those that were named are picked
/// from the reply.
pub proof fn show_command_arrives(
    units: Vec<String>,
    property: Vec<String>,
    value: bool,
    version: Text,
)
    ensures
        sends(
            Command::Show { units, property, value },
            version,
            Asked::Show(all_normalized(texts(units@)), seq![]),
            Display::Show(texts(property@), value),
        ),
{
    let v = all_normalized(texts(units@));
    let m = Map::<Text, Json>::empty().insert("op"@, Json::Str("show"@)).insert(
        "units"@,
        text_array(v),
    );
    reveal_strlit("op");
    reveal_strlit("units");
    reveal_strlit("properties");
    assert("op"@.len() == 2 && "op"@[0] == 'o' && "op"@[1] == 'p');
    assert("units"@.len() == 5 && "units"@[0] == 'u' && "units"@[1] == 'n' && "units"@[2] == 'i' && "units"@[3] == 't' && "units"@[4] == 's');
    assert("properties"@.len() == 10 && "properties"@[0] == 'p' && "properties"@[1] == 'r' && "properties"@[2] == 'o' && "properties"@[3] == 'p' && "properties"@[4] == 'e' && "properties"@[5] == 'r');
    assert(asks(m, "show"@));
    properties_are_asked_for(m, v, seq![]);
    assert forall|i: int| 0 <= i < v.len() implies normalized(#[trigger] v[i]) == v[i] by {
        normalized_is_final(texts(units@)[i]);
    }
    assert(all_normalized(v) =~= v);
    assert(asked(Json::Obj(m))->Ok_0->Show_1 =~= seq![]);
}

/// `kill` sends the signal that is named, and signal 15 where none is.
pub proof fn kill_sends_the_named_signal(signal: Option<Text>)
    ensures
        signal is None ==> kill_signal_of(signal) == Some(15int),
        signal is Some ==> kill_signal_of(signal) == crate::unit::values::signal_of(signal->0),
{
}

/// Enabling is followed by a start where that was asked, and else by a reload that
/// may fail; disabling by a stop where that was asked, and else by nothing.
pub proof fn enabling_is_followed_up(units: Vec<String>, version: Text)
    ensures
        ({
            let c = course_of(Command::Enable { units, now: true }, version)->Ok_0;
            &&& c is Enable && c->Enable_0 == all_normalized(texts(units@))
            &&& c->Enable_1 is Send && asked(c->Enable_1->Send_0) == Ok::<Asked, Text>(
                Asked::Units(UnitsOp::Start, all_normalized(texts(units@))),
            )
        }),
        ({
            let c = course_of(Command::Enable { units, now: false }, version)->Ok_0;
            &&& c is Enable && c->Enable_0 == all_normalized(texts(units@))
            &&& c->Enable_1 is Try && asked(c->Enable_1->Try_0) == Ok::<Asked, Text>(
                Asked::DaemonReload,
            )
        }),
        ({
            let c = course_of(Command::Disable { units, now: true }, version)->Ok_0;
            &&& c is Disable && c->Disable_0 == all_normalized(texts(units@))
            &&& c->Disable_1 is Send && asked(c->Disable_1->Send_0) == Ok::<Asked, Text>(
                Asked::Units(UnitsOp::Stop, all_normalized(texts(units@))),
            )
        }),
        course_of(Command::Disable { units, now: false }, version) == Ok::<Course, Text>(
            Course::Disable(all_normalized(texts(units@)), Sequel::Nothing),
        ),
        course_of(Command::IsEnabled { units }, version) == Ok::<Course, Text>(
            Course::IsEnabled(texts(units@)),
        ),
{
    requests_arrive(Wish::Units(UnitsOp::Start, texts(units@)));
    requests_arrive(Wish::Units(UnitsOp::Stop, texts(units@)));
    requests_arrive(Wish::DaemonReload);
}

/// What is asked, and what is planned, say what they hold.
pub proof fn asks_and_plans_say_what_they_hold(
    op: UnitsOp,
    v: Vec<String>,
    n: String,
    g: String,
    b: bool,
    s: Option<String>,
    x: Option<u64>,
    y: Option<u64>,
    j: serde_json::Value,
    r: Reply,
    a: After,
    shell: Shell,
)
    ensures
        (Ask::Units { op, units: v })@ == Wish::Units(op, texts(v@)),
        (Ask::Kill { unit: n, signal: g })@ == Wish::Kill(n@, g@),
        (Ask::ListDependencies { unit: n, reverse: b })@ == Wish::ListDependencies(n@, b),
        (Ask::ListUnits { types: v, state: s })@ == Wish::ListUnits(texts(v@), opt_text(s)),
        (Ask::Journal { unit: s, since: x, tail: y })@ == Wish::Journal(opt_text(s), x, y),
        (Ask::SetDefault { unit: n })@ == Wish::SetDefault(n@),
        (Ask::Isolate { unit: n })@ == Wish::Isolate(n@),
        Ask::ListUnitFiles@ is ListUnitFiles,
        Ask::ListTimers@ is ListTimers,
        Ask::DaemonReload@ is DaemonReload,
        Ask::GetDefault@ is GetDefault,
        Ask::Repo@ is Repo,
        Plan::Send(j, r)@ == Course::Send(json_of(j), r@),
        Plan::IsEnabled(v)@ == Course::IsEnabled(texts(v@)),
        Plan::Enable(v, a)@ == Course::Enable(texts(v@), a@),
        Plan::Disable(v, a)@ == Course::Disable(texts(v@), a@),
        Plan::Print(n)@ == Course::Print(n@),
        Plan::Completions(shell)@ == Course::Completions(shell),
        After::Nothing@ is Nothing,
        After::Send(j)@ == Sequel::Send(json_of(j)),
        After::Try(j)@ == Sequel::Try(json_of(j)),
        Reply::Quiet@ is Quiet && Reply::IsActive@ is IsActive && Reply::IsFailed@ is IsFailed,
        Reply::Status@ is Status && Reply::Cat@ is Cat && Reply::GetDefault@ is GetDefault,
        Reply::IsSystemRunning@ is IsSystemRunning,
        (Reply::ListUnits { legend: b })@ == Display::ListUnits(b),
        (Reply::ListUnitFiles { legend: b })@ == Display::ListUnitFiles(b),
        (Reply::ListTimers { legend: b })@ == Display::ListTimers(b),
        (Reply::Show { property: v, value: b })@ == Display::Show(texts(v@), b),
{
}

// ---- exit codes -----------------------------------------------------------------

proof fn state_is_among(v: Seq<Text>, s: Text)
    requires
        v.len() > 0,
    ensures
        v.contains(s) <==> v.drop_last().contains(s) || v.last() == s,
{
    let init = v.drop_last();
    if init.contains(s) {
        let i = init.index_of(s);
        assert(v[i] == s);
    }
    if v.last() == s {
        assert(v[v.len() - 1] == s);
    }
    if v.contains(s) {
        let i = v.index_of(s);
        if i < init.len() {
            assert(init[i] == s);
        }
    }
}

/// The exit code of `is-enabled` is 3 where a unit is not found, else 1 where one is
/// disabled or masked, else 0.
pub proof fn is_enabled_tells_the_worst(v: Seq<Text>)
    ensures
        worst_code(v) == 3 <==> v.contains("not-found"@),
        worst_code(v) == 1 <==> !v.contains("not-found"@) && (v.contains("disabled"@) || v.contains(
            "masked"@,
        )),
        worst_code(v) == 0 || worst_code(v) == 1 || worst_code(v) == 3,
    decreases v.len(),
{
    reveal_strlit("not-found");
    reveal_strlit("disabled");
    reveal_strlit("masked");
    assert("not-found"@.len() == 9 && "not-found"@[0] == 'n');
    assert("disabled"@.len() == 8 && "disabled"@[0] == 'd');
    assert("masked"@.len() == 6 && "masked"@[0] == 'm');
    if v.len() > 0 {
        is_enabled_tells_the_worst(v.drop_last());
        state_is_among(v, "not-found"@);
        state_is_among(v, "disabled"@);
        state_is_among(v, "masked"@);
    }
}

/// `is-failed` exits with 0 where the units failed, and says so; `is-active` with the
/// code of the reply; `is-system-running` with 1 where the system is degraded.
pub proof fn replies_decide_the_exit_code(
    j: Json,
    now: u64,
    n: i32,
    m: Map<Text, Json>,
    t: Text,
)
    ensures
        rendered(Display::IsFailed, Json::Arr(seq![Json::Bool(true)]), now) == Ok::<
            (Seq<Seq<Ink>>, i32),
            Text,
        >((seq![plain("failed"@)], 0i32)),
        rendered(Display::IsFailed, Json::Arr(seq![Json::Bool(false)]), now) == Ok::<
            (Seq<Seq<Ink>>, i32),
            Text,
        >((seq![plain("active"@)], 1i32)),
        m.contains_key("exit"@) && m["exit"@] == Json::Int(n as int) ==> rendered(
            Display::IsActive,
            Json::Obj(m),
            now,
        )->Ok_0.1 == n,
        m.contains_key("degraded"@) && m["degraded"@] == Json::Bool(true) ==> rendered(
            Display::IsSystemRunning,
            Json::Obj(m),
            now,
        ) == Ok::<(Seq<Seq<Ink>>, i32), Text>((seq![plain("degraded"@)], 1i32)),
        m.contains_key("degraded"@) && m["degraded"@] == Json::Bool(false) ==> rendered(
            Display::IsSystemRunning,
            Json::Obj(m),
            now,
        ) == Ok::<(Seq<Seq<Ink>>, i32), Text>((seq![plain("running"@)], 0i32)),
        rendered(Display::Quiet, j, now) == Ok::<(Seq<Seq<Ink>>, i32), Text>(
            (seq![], 0i32),
        ),
        rendered(Display::GetDefault, Json::Str(t), now) == Ok::<
            (Seq<Seq<Ink>>, i32),
            Text,
        >((seq![plain(t)], 0i32)),
{
    assert(seq![Json::Bool(true)][0] == Json::Bool(true));
    assert(seq![Json::Bool(false)][0] == Json::Bool(false));
}

// ---- what is printed ------------------------------------------------------------

/// A column holds its text, and spaces behind it up to its width.
pub proof fn columns_hold_their_text(s: Text, width: nat)
    ensures
        padded(s, width).len() == if s.len() < width {
            width
        } else {
            s.len()
        },
        padded(s, width).take(s.len() as int) == s,
        forall|i: int| s.len() <= i < padded(s, width).len() ==> #[trigger] padded(s, width)[i] == ' ',
{
    assert(padded(s, width).take(s.len() as int) =~= s);
}

/// A row of `list-units` has the unit, the load state, the active state, the
/// sub-state and the description, in this order and at these places.
#[verifier::spinoff_prover]
#[verifier::rlimit(60)]
pub proof fn unit_rows_show_the_columns(s: UnitSummary)
    ensures
        unit_line(summary_json(s@)) == plain(
            unit_columns(s.unit@, s.loaded@, s.active@, s.sub@, s.description@),
        ),
        s.unit@.len() <= 32 && s.loaded@.len() <= 8 && s.active@.len() <= 8 && s.sub@.len() <= 10
            ==> ({
            let row = unit_line(summary_json(s@))[0].text;
            &&& row.take(s.unit@.len() as int) == s.unit@
            &&& row.skip(33).take(s.loaded@.len() as int) == s.loaded@
            &&& row.skip(42).take(s.active@.len() as int) == s.active@
            &&& row.skip(51).take(s.sub@.len() as int) == s.sub@
            &&& row.skip(62) == s.description@
        }),
{
    summary_is_sent_field_by_field(s);
    reveal_strlit(" ");
    assert(" "@ =~= seq![' ']);
    let row = unit_columns(s.unit@, s.loaded@, s.active@, s.sub@, s.description@);
    if s.unit@.len() <= 32 && s.loaded@.len() <= 8 && s.active@.len() <= 8 && s.sub@.len() <= 10 {
        columns_hold_their_text(s.unit@, 32);
        columns_hold_their_text(s.loaded@, 8);
        columns_hold_their_text(s.active@, 8);
        columns_hold_their_text(s.sub@, 10);
        let a = padded(s.unit@, 32);
        let b = padded(s.loaded@, 8);
        let c = padded(s.active@, 8);
        let d = padded(s.sub@, 10);
        assert(row.len() == 62 + s.description@.len());
        assert(row.take(s.unit@.len() as int) =~= a.take(s.unit@.len() as int));
        assert(row.skip(33).take(s.loaded@.len() as int) =~= b.take(s.loaded@.len() as int));
        assert(row.skip(42).take(s.active@.len() as int) =~= c.take(s.active@.len() as int));
        assert(row.skip(51).take(s.sub@.len() as int) =~= d.take(s.sub@.len() as int));
        assert(row.skip(62) =~= s.description@);
    }
}

/// A row of `list-unit-files` has the file and its state, in green where it is
/// enabled and in yellow where it is disabled.
pub proof fn file_rows_show_the_state(f: UnitFileInfo, t: Text)
    ensures
        file_line(file_json(f@)) == seq![
            ink(Tone::Plain, padded(f.file@, 32) + " "@),
            ink(state_tone(f.state@), f.state@),
        ],
        state_tone(t) == Tone::Green <==> t == "enabled"@,
        state_tone(t) == Tone::Yellow <==> t == "disabled"@,
        state_tone(t) == Tone::Plain <==> t != "enabled"@ && t != "disabled"@,
{
    unit_file_is_sent_field_by_field(f);
    reveal_strlit("enabled");
    reveal_strlit("disabled");
    assert("enabled"@.len() == 7 && "enabled"@[0] == 'e');
    assert("disabled"@.len() == 8 && "disabled"@[0] == 'd');
}

/// The status of a unit shows its name and description, where it was loaded from and
/// its enable state, and its active and its sub-state; the bullet's color is that of
/// its state.
#[verifier::spinoff_prover]
#[verifier::rlimit(60)]
pub proof fn status_shows_the_unit(s: UnitStatus, now: u64, t: Text)
    ensures
        ({
            let h = status_head(status_json(s@), now);
            &&& h.len() == 3
            &&& h[0][0] == ink(bullet_tone(s.active@), "●"@)
            &&& h[0][2] == ink(Tone::Accent, s.name@)
            &&& h[0][3] == ink(Tone::Plain, " - "@ + s.description@)
            &&& h[1][0] == ink(Tone::Plain, "     Loaded: "@)
            &&& h[1][1] == ink(Tone::Warn, s.load@)
            &&& s.path is Some ==> h[1][2] == ink(
                Tone::Plain,
                loaded_text(s.path->0@, s.enabled@),
            )
            &&& h[2][0] == ink(Tone::Plain, "     Active: "@)
            &&& h[2][1] == ink(Tone::Warn, s.active@)
            &&& h[2][3] == ink(Tone::Dim, s.sub@)
            &&& s.active_enter is Some ==> h[2][4] == ink(
                Tone::Plain,
                ") since "@ + time_text(s.active_enter->0, now),
            )
            &&& s.active_enter is None ==> h[2][4] == ink(Tone::Plain, ") since "@ + "-"@)
        }),
        s.main_pid is None ==> pid_lines(status_json(s@)).len() == 0,
        s.main_pid is Some && s.main_pid->0 > 0 ==> pid_lines(status_json(s@)) == seq![
            plain("   Main PID: "@ + decimal_int(s.main_pid->0 as int)),
        ],
        bullet_tone(t) == Tone::Star <==> t == "active"@,
        bullet_tone(t) == Tone::Error <==> t == "failed"@,
        bullet_tone(t) == Tone::Plain <==> t != "active"@ && t != "failed"@,
{
    status_is_sent_field_by_field(s);
    reveal_strlit("active");
    reveal_strlit("failed");
    assert("active"@.len() == 6 && "active"@[0] == 'a');
    assert("failed"@.len() == 6 && "failed"@[0] == 'f');
}

/// The path is shown with the enable state behind it, where there is one.
pub proof fn loaded_shows_the_path(path: Text, enabled: Text)
    ensures
        enabled.len() == 0 ==> loaded_text(path, enabled) == " ("@ + path + ")"@,
        enabled.len() > 0 ==> loaded_text(path, enabled) == " ("@ + path + "; "@ + enabled + ")"@,
{
}

/// At most 20 lines of a unit's output are shown: the first ones, in order.
pub proof fn output_is_shown_in_order(log: Seq<Text>, i: int)
    ensures
        log_lines(text_array(log)->Arr_0).len() == if log.len() > 20 {
            20
        } else {
            log.len()
        },
        0 <= i < log.len() && i < 20 ==> log_lines(text_array(log)->Arr_0)[i] == seq![
            ink(Tone::Plain, "        "@),
            ink(Tone::Dim, log[i]),
        ],
{
}

/// Between two statuses there is an empty line.
pub proof fn statuses_are_set_apart(v: Seq<Json>, j: Json, now: u64)
    ensures
        all_statuses(seq![j], now) == status_lines(j, now),
        v.len() > 0 ==> all_statuses(v.push(j), now) == all_statuses(v, now) + seq![plain(""@)]
            + status_lines(j, now),
{
    assert(v.push(j).drop_last() =~= v);
}

/// A row of `list-timers` has the next time, how long it is until then, the last
/// time, how long ago that was, the timer, and what it activates.
pub proof fn timer_rows_show_the_columns(t: TimerInfo, now: u64)
    ensures
        t.next is Some && t.last is Some ==> ({
            let next = time_text(t.next->0, now);
            let row = timer_line(timer_json(t@), now);
            &&& row[0] == ink(Tone::Accent, next)
            &&& row[1] == ink(
                Tone::Plain,
                crate::cli::show::fill(next, 26) + timer_columns(
                    wait_text(t.next_left),
                    time_text(t.last->0, now),
                    passed_text(t.last_passed),
                    t.unit@,
                    t.activates@,
                ),
            )
        }),
        t.next is None ==> timer_line(timer_json(t@), now)[0] == ink(Tone::Accent, "-"@),
{
    timer_is_sent_field_by_field(t);
}

/// How long a timer has to wait is shown where it is not due yet, and how long ago it
/// elapsed where it did.
pub proof fn waits_are_shown(n: i64)
    ensures
        n > 0 ==> wait_text(Some(n)) == left_text(n as nat) + " left"@,
        n <= 0 ==> wait_text(Some(n)) == ""@,
        n >= 0 ==> passed_text(Some(n)) == left_text(n as nat) + " ago"@,
        n < 0 ==> passed_text(Some(n)) == ""@,
        wait_text(None) == ""@,
        passed_text(None) == ""@,
{
}

/// `cat` shows the unit, the path and the text, in this order.
pub proof fn cat_shows_the_file(c: CatEntry)
    ensures
        cat_lines(cat_json(c@)) == seq![
            plain("# "@ + c.unit@),
            plain("# "@ + c.path@),
            plain(c.text@),
        ],
{
    cat_is_sent_field_by_field(c);
}

/// A property is shown as its name, `=` and its value, or as the value alone; of
/// those that are wanted, or of all.
pub proof fn properties_are_shown(
    m: Map<Text, Json>,
    names: Seq<Text>,
    wanted: Seq<Text>,
    value_only: bool,
    k: Text,
    s: Text,
)
    ensures
        property_line(k, Json::Str(s), false) == plain(k + "="@ + s),
        property_line(k, Json::Str(s), true) == plain(s),
        wanted.len() == 0 || wanted.contains(k) ==> property_lines(
            m,
            names.push(k),
            wanted,
            value_only,
        ) == property_lines(m, names, wanted, value_only).push(
            property_line(k, m[k], value_only),
        ),
        wanted.len() > 0 && !wanted.contains(k) ==> property_lines(
            m,
            names.push(k),
            wanted,
            value_only,
        ) == property_lines(m, names, wanted, value_only),
{
    assert(names.push(k).drop_last() =~= names);
}

/// A table has a head line where that is wanted, and a row for each item, in order.
pub proof fn tables_have_a_row_for_each_item(rows: Seq<Json>, i: int, now: u64)
    requires
        0 <= i < rows.len(),
    ensures
        unit_table(rows, false).len() == rows.len(),
        unit_table(rows, false)[i] == unit_line(rows[i]),
        unit_table(rows, true).len() == rows.len() + 1,
        unit_table(rows, true)[0] == plain(
            unit_columns("UNIT"@, "LOAD"@, "ACTIVE"@, "SUB"@, "DESCRIPTION"@),
        ),
        unit_table(rows, true)[i + 1] == unit_line(rows[i]),
        file_table(rows, false)[i] == file_line(rows[i]),
        file_table(rows, true)[0] == plain(padded("UNIT FILE"@, 32) + " STATE"@),
        file_table(rows, true)[i + 1] == file_line(rows[i]),
        timer_table(rows, false, now)[i] == timer_line(rows[i], now),
        timer_table(rows, true, now)[0] == plain(
            padded("NEXT"@, 26) + timer_columns("LEFT"@, "LAST"@, "PASSED"@, "UNIT"@, "ACTIVATES"@),
        ),
        timer_table(rows, true, now)[i + 1] == timer_line(rows[i], now),
{
}

/// Each reply is shown by its own table, with nothing left out, and the exit code 0.
pub proof fn replies_are_shown_whole(rows: Seq<Json>, legend: bool, now: u64)
    ensures
        rendered(Display::ListUnits(legend), Json::Arr(rows), now)->Ok_0 == (
            unit_table(rows, legend),
            0i32,
        ),
        rendered(Display::ListUnitFiles(legend), Json::Arr(rows), now)->Ok_0 == (
            file_table(rows, legend),
            0i32,
        ),
        rendered(Display::ListTimers(legend), Json::Arr(rows), now)->Ok_0 == (
            timer_table(rows, legend, now),
            0i32,
        ),
        rendered(Display::Cat, Json::Arr(rows), now)->Ok_0 == (all_cats(rows), 0i32),
        rendered(Display::Status, Json::Arr(rows), now)->Ok_0 == (all_statuses(rows, now), 0i32),
{
}

/// The files of `cat` stand one behind the other, and the states of `is-active` too, as
/// the reply has them.
pub proof fn items_are_shown_in_order(v: Seq<Json>, j: Json, unit: Json, state: Text)
    ensures
        all_cats(v.push(j)) == all_cats(v) + cat_lines(j),
        all_cats(seq![]).len() == 0,
        state_lines(v.push(Json::Arr(seq![unit, Json::Str(state)]))) == state_lines(v).push(
            plain(state),
        ),
{
    assert(v.push(j).drop_last() =~= v);
    let p = Json::Arr(seq![unit, Json::Str(state)]);
    assert(seq![unit, Json::Str(state)][1] == Json::Str(state));
    assert(state_lines(v.push(p)) =~= state_lines(v).push(plain(state)));
}

/// A value is shown as it is: a text without quotes, a number in decimal, and the words
/// for the rest.
pub proof fn values_are_shown_as_they_are(s: Text, n: i64)
    ensures
        value_text(Json::Str(s)) == s,
        value_text(Json::Int(n as int)) == decimal_int(n as int),
        value_text(Json::Bool(true)) == "true"@,
        value_text(Json::Bool(false)) == "false"@,
        value_text(Json::Null) == "null"@,
{
}

/// A time is shown as its date, and how long ago it was; one to come is now.
pub proof fn times_are_shown_with_their_age(date: Text, secs: u64, now: u64)
    ensures
        now >= secs ==> epoch_text(Some(date), secs, now) == date + "; "@ + (left_text(
            (now - secs) as nat,
        ) + " ago"@),
        now < secs ==> epoch_text(Some(date), secs, now) == date + "; "@ + (left_text(0)
            + " ago"@),
{
}

/// A reply that is not of the right shape is refused, and what a status leaves out is
/// shown as a question mark.
pub proof fn replies_of_another_shape_are_refused(j: Json, wanted: Seq<Text>, only: bool, now: u64)
    ensures
        !(j is Arr) ==> rendered(Display::Status, j, now) == Err::<(Seq<Seq<Ink>>, i32), Text>(
            "bad status response"@,
        ),
        forall|v: Seq<Json>, i: int|
            j == Json::Arr(v) && 0 <= i < v.len() && !(#[trigger] v[i] is Obj) ==> rendered(
                Display::Show(wanted, only),
                j,
                now,
            ) == Err::<(Seq<Seq<Ink>>, i32), Text>("bad show response"@),
        member_of(j, "name"@) is None ==> status_head(j, now)[0][2] == ink(Tone::Accent, "?"@),
        member_of(j, "load"@) is None ==> status_head(j, now)[1][1] == ink(Tone::Warn, "?"@),
        member_of(j, "active"@) is None ==> status_head(j, now)[2][1] == ink(Tone::Warn, "?"@),
        member_of(j, "sub"@) is None ==> status_head(j, now)[2][3] == ink(Tone::Dim, "?"@),
{
}

/// The lines of the log stand under a title, and there is none where there are no lines.
pub proof fn logs_have_a_title(log: Seq<Json>)
    ensures
        log.len() == 0 ==> output_lines(log).len() == 0,
        log.len() > 0 ==> output_lines(log) == seq![plain("      Logs:"@)] + log_lines(log),
{
}

} // verus!
