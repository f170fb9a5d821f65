//! What the manager does about a request: the reply where it can answer from
//! what it knows, else the work that has to be done first.

use vstd::prelude::*;

use crate::control::{
    cats_json, cats_value, files_json, files_value, records_json, records_value, repo_json,
    repo_value, statuses_json, statuses_value, summaries_json, summaries_value, timers_json,
    timers_value, Cat, JournalRecord, Place, Status, UnitFileInfo, UnitStatus,
};
use crate::ipc::journal::{select_records, selected};
use crate::ipc::{value_result, Asked, Request, UnitsOp};
use crate::json::{
    array_value, bool_value, empty_object, int_value, json_of, jsons_of, null_value, put_member,
    text_array, text_value, texts_value, Json,
};
use crate::manager::ops::{
    active_str, active_text, cat_entries, dependency_list, file_infos, isolate_stops, query_list,
    reset_all, shown_units, state_in, summaries, timer_infos, unit_status, ListedFile, Manager,
    ReadFile,
};
use crate::manager::state::{ActiveState, Unit};
use crate::names::normalized;
use crate::order::{sorting, views};
use crate::platform::signal::Signal;
use crate::table::{sorted_keys, Table};
use crate::text::{cat3, opt_text, owned, texts, Text};

verus! {

/// What the manager knows of the world outside when it answers: the time, the
/// enable states by unit, the names in the units' `.wants` and `.requires`
/// directories, the files in the unit directories, what the link
/// `default.target` names, what reading the unit files for `cat` gave, and the
/// lines of the journal: all of them, or at least all that were asked for.
pub struct Facts {
    pub now: u64,
    pub states: Table<String>,
    pub dirs: Table<Vec<String>>,
    pub files: Vec<ListedFile>,
    pub default_link: Option<String>,
    pub read_files: Vec<Result<ReadFile, String>>,
    pub records: Vec<JournalRecord>,
    pub journal_dir: String,
}

/// What is done to each of several units in turn.
#[derive(Debug, Clone, Copy, PartialEq, Eq, Structural)]
pub enum SequenceOp {
    Start,
    Stop,
    Restart,
    Reload,
    TryRestart,
}

/// What has to be done for a request before it is answered.
#[derive(Debug, Clone)]
pub enum Work {
    /// Do this to each unit in turn.
    Each(SequenceOp, Vec<String>),
    Kill(String, Signal),
    LoadAll,
    SetDefault(String),
    /// Stop these, then start that one.
    Isolate(Vec<String>, String),
    Enable(Vec<String>),
    Disable(Vec<String>),
    Mask(Vec<String>),
    Unmask(Vec<String>),
    Reenable(Vec<String>),
    Clean(Vec<String>),
    Shutdown,
}

/// The work, as specifications see it.
pub ghost enum Todo {
    Each(SequenceOp, Seq<Text>),
    Kill(Text, int),
    LoadAll,
    SetDefault(Text),
    Isolate(Seq<Text>, Text),
    Enable(Seq<Text>),
    Disable(Seq<Text>),
    Mask(Seq<Text>),
    Unmask(Seq<Text>),
    Reenable(Seq<Text>),
    Clean(Seq<Text>),
    Shutdown,
}

impl View for Work {
    type V = Todo;

    open spec fn view(&self) -> Todo {
        match self {
            Work::Each(op, v) => Todo::Each(*op, texts(v@)),
            Work::Kill(u, s) => Todo::Kill(u@, s.raw()),
            Work::LoadAll => Todo::LoadAll,
            Work::SetDefault(n) => Todo::SetDefault(n@),
            Work::Isolate(v, n) => Todo::Isolate(texts(v@), n@),
            Work::Enable(v) => Todo::Enable(texts(v@)),
            Work::Disable(v) => Todo::Disable(texts(v@)),
            Work::Mask(v) => Todo::Mask(texts(v@)),
            Work::Unmask(v) => Todo::Unmask(texts(v@)),
            Work::Reenable(v) => Todo::Reenable(texts(v@)),
            Work::Clean(v) => Todo::Clean(texts(v@)),
            Work::Shutdown => Todo::Shutdown,
        }
    }
}

/// The answer to a request: a reply, or work to do first.
pub enum Answer {
    Reply(Result<serde_json::Value, String>),
    Perform(Work),
}

/// An answer, as specifications see it.
pub ghost enum Answered {
    Reply(Result<Json, Text>),
    Perform(Todo),
}

impl View for Answer {
    type V = Answered;

    open spec fn view(&self) -> Answered {
        match self {
            Answer::Reply(r) => Answered::Reply(value_result(*r)),
            Answer::Perform(w) => Answered::Perform(w@),
        }
    }
}

/// The statuses of the units of these names; names that are no unit's are left
/// out.
pub open spec fn statuses(
    units: Map<Text, Unit>,
    names: Seq<Text>,
    states: Map<Text, String>,
) -> Seq<Status>
    decreases names.len(),
{
    if names.len() == 0 {
        seq![]
    } else {
        let n = names.last();
        let rows = statuses(units, names.drop_last(), states);
        if units.contains_key(n) {
            rows.push(unit_status(units[n], state_in(states, n)))
        } else {
            rows
        }
    }
}

pub open spec fn not_found(n: Text) -> Text {
    "Unit "@ + n + " not found."@
}

/// The first of the names that is no unit's.
pub open spec fn first_missing(units: Map<Text, Unit>, names: Seq<Text>) -> Option<Text>
    decreases names.len(),
{
    if names.len() == 0 {
        None
    } else if !units.contains_key(names[0]) {
        Some(names[0])
    } else {
        first_missing(units, names.skip(1))
    }
}

/// How bad a state is, as an exit code.
pub open spec fn badness(a: ActiveState) -> int {
    match a {
        ActiveState::Failed => 4,
        ActiveState::Inactive => 3,
        _ => 0,
    }
}

/// How bad the worst of several states is.
pub open spec fn worst(units: Map<Text, Unit>, names: Seq<Text>) -> int
    decreases names.len(),
{
    if names.len() == 0 {
        0
    } else {
        let a = worst(units, names.drop_last());
        let b = badness(units[names.last()].active);
        if a >= b {
            a
        } else {
            b
        }
    }
}

/// A unit and its state.
pub open spec fn state_pair(n: Text, u: Unit) -> Json {
    Json::Arr(seq![Json::Str(n), Json::Str(active_text(u.active))])
}

/// The reply to `is_active`: each unit with its state, and the worst state as
/// an exit code.
pub open spec fn is_active_reply(units: Map<Text, Unit>, names: Seq<Text>) -> Result<Json, Text> {
    match first_missing(units, names) {
        Some(n) => Err(not_found(n)),
        None => Ok(
            Json::Obj(
                Map::<Text, Json>::empty().insert(
                    "states"@,
                    Json::Arr(Seq::new(names.len(), |i: int| state_pair(names[i], units[names[i]]))),
                ).insert("exit"@, Json::Int(worst(units, names))),
            ),
        ),
    }
}

/// The reply to `is_failed`: whether all units failed. The first one that is
/// not there, or has not failed, decides.
pub open spec fn is_failed_reply(units: Map<Text, Unit>, names: Seq<Text>) -> Result<Json, Text>
    decreases names.len(),
{
    if names.len() == 0 {
        Ok(Json::Arr(seq![Json::Bool(true)]))
    } else if !units.contains_key(names[0]) {
        Err(not_found(names[0]))
    } else if units[names[0]].active != ActiveState::Failed {
        Ok(Json::Arr(seq![Json::Bool(false)]))
    } else {
        is_failed_reply(units, names.skip(1))
    }
}

/// Has some unit failed?
pub open spec fn is_degraded(units: Map<Text, Unit>) -> bool {
    exists|n: Text| #[trigger] units.contains_key(n) && units[n].active == ActiveState::Failed
}

pub open spec fn running_json(degraded: bool) -> Json {
    Json::Obj(
        Map::<Text, Json>::empty().insert("running"@, Json::Bool(!degraded)).insert(
            "degraded"@,
            Json::Bool(degraded),
        ),
    )
}

pub open spec fn journal_json(records: Json, dir: Text) -> Json {
    Json::Obj(
        Map::<Text, Json>::empty().insert("records"@, records).insert("dir"@, Json::Str(dir)),
    )
}

/// The answer to an operation on a list of units.
pub open spec fn units_answered(
    units: Map<Text, Unit>,
    op: UnitsOp,
    names: Seq<Text>,
    f: Facts,
) -> Answered {
    match op {
        UnitsOp::Start => Answered::Perform(Todo::Each(SequenceOp::Start, names)),
        UnitsOp::Stop => Answered::Perform(Todo::Each(SequenceOp::Stop, names)),
        UnitsOp::Restart => Answered::Perform(Todo::Each(SequenceOp::Restart, names)),
        UnitsOp::TryRestart => Answered::Perform(Todo::Each(SequenceOp::TryRestart, names)),
        UnitsOp::Reload => Answered::Perform(Todo::Each(SequenceOp::Reload, names)),
        UnitsOp::ResetFailed => Answered::Reply(
            match first_missing(units, names) {
                Some(n) => Err(not_found(n)),
                None => Ok(Json::Null),
            },
        ),
        UnitsOp::Clean => Answered::Perform(Todo::Clean(names)),
        UnitsOp::Status => Answered::Reply(
            Ok(statuses_json(statuses(units, query_list(units, names), f.states@))),
        ),
        UnitsOp::IsActive => Answered::Reply(is_active_reply(units, names)),
        UnitsOp::IsFailed => Answered::Reply(is_failed_reply(units, names)),
        UnitsOp::Cat => Answered::Reply(
            match cat_entries(units, names, f.read_files@) {
                Ok(v) => Ok(cats_json(v)),
                Err(e) => Err(e),
            },
        ),
        UnitsOp::Enable => Answered::Perform(Todo::Enable(names)),
        UnitsOp::Disable => Answered::Perform(Todo::Disable(names)),
        UnitsOp::Mask => Answered::Perform(Todo::Mask(names)),
        UnitsOp::Unmask => Answered::Perform(Todo::Unmask(names)),
        UnitsOp::Reenable => Answered::Perform(Todo::Reenable(names)),
        UnitsOp::IsEnabled => Answered::Reply(
            Ok(text_array(Seq::new(names.len(), |i: int| state_in(f.states@, names[i])))),
        ),
    }
}

/// The answer to a request.
pub open spec fn answered(
    units: Map<Text, Unit>,
    roots: Seq<Text>,
    q: Asked,
    f: Facts,
) -> Answered {
    match q {
        Asked::Units(op, names) => units_answered(units, op, names, f),
        Asked::Kill(u, s) => Answered::Perform(Todo::Kill(u, s)),
        Asked::ListDependencies(n, reverse) => Answered::Reply(
            Ok(text_array(dependency_list(units, f.dirs@, normalized(n), reverse))),
        ),
        Asked::ListUnits(types, state, pattern) => Answered::Reply(
            Ok(summaries_json(summaries(units, sorted_keys(units), types, state, pattern))),
        ),
        Asked::ListUnitFiles => Answered::Reply(
            Ok(files_json(sorting::<UnitFileInfo>(file_infos(f.files@)))),
        ),
        Asked::ListTimers => Answered::Reply(
            Ok(timers_json(timer_infos(units, sorted_keys(units), f.now))),
        ),
        Asked::Show(names, props) => Answered::Reply(
            Ok(Json::Arr(shown_units(units, query_list(units, names), props, f.states@))),
        ),
        Asked::DaemonReload => Answered::Perform(Todo::LoadAll),
        Asked::GetDefault => Answered::Reply(
            Ok(
                Json::Str(
                    match f.default_link {
                        Some(t) => t@,
                        None => "default.target"@,
                    },
                ),
            ),
        ),
        Asked::Repo => Answered::Reply(Ok(repo_json(Place { root: roots[0], roots }))),
        Asked::Journal(unit, since, tail) => Answered::Reply(
            Ok(
                journal_json(
                    records_json(selected(views(f.records@), unit, since, tail)),
                    f.journal_dir@,
                ),
            ),
        ),
        Asked::SetDefault(n) => Answered::Perform(Todo::SetDefault(n)),
        Asked::Isolate(n) => Answered::Perform(
            Todo::Isolate(isolate_stops(units, sorted_keys(units), normalized(n)), normalized(n)),
        ),
        Asked::IsSystemRunning => Answered::Reply(Ok(running_json(is_degraded(units)))),
        Asked::Shutdown => Answered::Perform(Todo::Shutdown),
    }
}

/// The units after a request was answered: those that it resets are changed.
pub open spec fn units_after(units: Map<Text, Unit>, q: Asked) -> Map<Text, Unit> {
    match q {
        Asked::Units(UnitsOp::ResetFailed, names) => reset_all(units, names),
        _ => units,
    }
}

fn statuses_of(mgr: &Manager, names: &Vec<String>, states: &Table<String>) -> (r: Vec<UnitStatus>)
    ensures
        views(r@) == statuses(mgr.units@, texts(names@), states@),
{
    let mut rows: Vec<UnitStatus> = Vec::new();
    let mut i: usize = 0;
    let ghost all = texts(names@);
    proof {
        assert(all.take(0) =~= seq![]);
        assert(views(rows@) =~= seq![]);
    }
    while i < names.len()
        invariant
            i <= names.len(),
            all == texts(names@),
            views(rows@) == statuses(mgr.units@, all.take(i as int), states@),
        decreases names.len() - i,
    {
        let ghost upto = all.take(i + 1);
        let ghost was = views(rows@);
        let n = names[i].as_str();
        proof {
            assert(upto.drop_last() =~= all.take(i as int));
            assert(upto.last() == n@);
        }
        let state = state_for(states, n);
        match mgr.status_of(n, state) {
            Some(s) => {
                let ghost row = s@;
                rows.push(s);
                assert(views(rows@) =~= was.push(row));
            },
            None => {},
        }
        i = i + 1;
    }
    assert(all.take(names.len() as int) =~= all);
    rows
}

fn state_for<'a>(states: &'a Table<String>, n: &str) -> (r: &'a str)
    ensures
        r@ == state_in(states@, n@),
{
    match states.get(n) {
        Some(s) => s.as_str(),
        None => {
            proof {
                reveal_strlit("");
                assert(""@ =~= seq![]);
            }
            ""
        },
    }
}

fn states_for(states: &Table<String>, names: &Vec<String>) -> (r: Vec<String>)
    ensures
        texts(r@) == Seq::new(
            texts(names@).len(),
            |i: int| state_in(states@, texts(names@)[i]),
        ),
{
    let mut out: Vec<String> = Vec::new();
    let mut i: usize = 0;
    while i < names.len()
        invariant
            i <= names.len(),
            out.len() == i,
            forall|j: int|
                0 <= j < i ==> (#[trigger] out@[j])@ == state_in(states@, texts(names@)[j]),
        decreases names.len() - i,
    {
        out.push(owned(state_for(states, names[i].as_str())));
        i = i + 1;
    }
    assert(texts(out@) =~= Seq::new(
        texts(names@).len(),
        |i: int| state_in(states@, texts(names@)[i]),
    ));
    out
}

/// Where the first name that is no unit's stands, nothing before it is missing.
proof fn first_missing_at(units: Map<Text, Unit>, names: Seq<Text>, i: int)
    requires
        0 <= i <= names.len(),
        forall|j: int| 0 <= j < i ==> units.contains_key(#[trigger] names[j]),
    ensures
        i < names.len() && !units.contains_key(names[i]) ==> first_missing(units, names) == Some(
            names[i],
        ),
        i == names.len() ==> first_missing(units, names) is None,
    decreases i,
{
    if i > 0 {
        let rest = names.skip(1);
        assert forall|j: int| 0 <= j < i - 1 implies units.contains_key(#[trigger] rest[j]) by {
            assert(rest[j] == names[j + 1]);
        }
        assert(units.contains_key(names[0]));
        first_missing_at(units, rest, i - 1);
        if i < names.len() {
            assert(rest[i - 1] == names[i]);
        }
    }
}

fn is_active(mgr: &Manager, names: &Vec<String>) -> (r: Result<serde_json::Value, String>)
    ensures
        value_result(r) == is_active_reply(mgr.units@, texts(names@)),
{
    let mut states: Vec<serde_json::Value> = Vec::new();
    let mut exit: i64 = 0;
    let mut i: usize = 0;
    let ghost all = texts(names@);
    assert(all.take(0) =~= seq![]);
    while i < names.len()
        invariant
            i <= names.len(),
            all == texts(names@),
            states.len() == i,
            0 <= exit <= 4,
            exit == worst(mgr.units@, all.take(i as int)),
            forall|j: int| 0 <= j < i ==> mgr.units@.contains_key(#[trigger] all[j]),
            forall|j: int|
                0 <= j < i ==> json_of(#[trigger] states@[j]) == state_pair(
                    all[j],
                    mgr.units@[all[j]],
                ),
        decreases names.len() - i,
    {
        let n = names[i].as_str();
        let ghost upto = all.take(i + 1);
        proof {
            assert(all[i as int] == n@);
            assert(upto.drop_last() =~= all.take(i as int));
            assert(upto.last() == n@);
        }
        match mgr.units.get(n) {
            None => {
                proof {
                    first_missing_at(mgr.units@, all, i as int);
                }
                return Err(cat3("Unit ", n, " not found."));
            },
            Some(u) => {
                let bad: i64 = match u.active {
                    ActiveState::Failed => 4,
                    ActiveState::Inactive => 3,
                    _ => 0,
                };
                if bad > exit {
                    exit = bad;
                }
                let mut pair: Vec<serde_json::Value> = Vec::new();
                pair.push(text_value(n));
                pair.push(text_value(active_str(u.active)));
                assert(jsons_of(pair@) =~= seq![Json::Str(n@), Json::Str(active_text(u.active))]);
                states.push(array_value(pair));
            },
        }
        i = i + 1;
    }
    proof {
        assert(all.take(names.len() as int) =~= all);
        first_missing_at(mgr.units@, all, names.len() as int);
        assert(jsons_of(states@) =~= Seq::new(
            all.len(),
            |i: int| state_pair(all[i], mgr.units@[all[i]]),
        ));
    }
    let mut v = empty_object();
    put_member(&mut v, "states", array_value(states));
    put_member(&mut v, "exit", int_value(exit));
    Ok(v)
}

fn one_boolean(b: bool) -> (r: serde_json::Value)
    ensures
        json_of(r) == Json::Arr(seq![Json::Bool(b)]),
{
    let mut v: Vec<serde_json::Value> = Vec::new();
    v.push(bool_value(b));
    assert(jsons_of(v@) =~= seq![Json::Bool(b)]);
    array_value(v)
}

fn is_failed(mgr: &Manager, names: &Vec<String>) -> (r: Result<serde_json::Value, String>)
    ensures
        value_result(r) == is_failed_reply(mgr.units@, texts(names@)),
{
    let mut i: usize = 0;
    let ghost all = texts(names@);
    assert(all.skip(0) =~= all);
    while i < names.len()
        invariant
            i <= names.len(),
            all == texts(names@),
            is_failed_reply(mgr.units@, all) == is_failed_reply(mgr.units@, all.skip(i as int)),
        decreases names.len() - i,
    {
        let n = names[i].as_str();
        proof {
            assert(all.skip(i as int)[0] == n@);
            assert(all.skip(i as int).skip(1) =~= all.skip(i + 1));
        }
        match mgr.units.get(n) {
            None => {
                return Err(cat3("Unit ", n, " not found."));
            },
            Some(u) => {
                if u.active != ActiveState::Failed {
                    return Ok(one_boolean(false));
                }
            },
        }
        i = i + 1;
    }
    Ok(one_boolean(true))
}

/// Has some unit failed?
fn degraded(mgr: &Manager) -> (r: bool)
    ensures
        r == is_degraded(mgr.units@),
{
    let names = mgr.units.sorted_names();
    let mut i: usize = 0;
    while i < names.len()
        invariant
            i <= names.len(),
            texts(names@) == sorted_keys(mgr.units@),
            crate::table::are_sorted_keys(mgr.units@, texts(names@)),
            forall|j: int|
                0 <= j < i && mgr.units@.contains_key(texts(names@)[j])
                    ==> mgr.units@[#[trigger] texts(names@)[j]].active != ActiveState::Failed,
        decreases names.len() - i,
    {
        let n = names[i].as_str();
        assert(texts(names@)[i as int] == n@);
        match mgr.units.get(n) {
            Some(u) => {
                if u.active == ActiveState::Failed {
                    assert(mgr.units@.contains_key(n@));
                    return true;
                }
            },
            None => {},
        }
        i = i + 1;
    }
    assert forall|n: Text| #[trigger] mgr.units@.contains_key(n) implies mgr.units@[n].active
        != ActiveState::Failed by {
        assert(texts(names@).contains(n));
        let j = choose|j: int| 0 <= j < texts(names@).len() && texts(names@)[j] == n;
        assert(texts(names@)[j] == n);
    }
    false
}

fn units_op(mgr: &mut Manager, op: UnitsOp, units: Vec<String>, facts: &Facts) -> (r: Answer)
    requires
        op == UnitsOp::Cat ==> facts.read_files.len() == units.len(),
    ensures
        r@ == units_answered(old(mgr).units@, op, texts(units@), *facts),
        final(mgr).units@ == units_after(old(mgr).units@, Asked::Units(op, texts(units@))),
        final(mgr).repo == old(mgr).repo,
{
    match op {
        UnitsOp::Start => Answer::Perform(Work::Each(SequenceOp::Start, units)),
        UnitsOp::Stop => Answer::Perform(Work::Each(SequenceOp::Stop, units)),
        UnitsOp::Restart => Answer::Perform(Work::Each(SequenceOp::Restart, units)),
        UnitsOp::TryRestart => Answer::Perform(Work::Each(SequenceOp::TryRestart, units)),
        UnitsOp::Reload => Answer::Perform(Work::Each(SequenceOp::Reload, units)),
        UnitsOp::ResetFailed => {
            let ghost before = mgr.units@;
            let ghost all = texts(units@);
            match mgr.reset_failed_units(&units) {
                Ok(_) => {
                    proof {
                        first_missing_at(before, all, all.len() as int);
                    }
                    Answer::Reply(Ok(null_value()))
                },
                Err(e) => {
                    proof {
                        let i = choose|i: int|
                            0 <= i < all.len() && !before.contains_key(#[trigger] all[i]) && (
                            forall|j: int| 0 <= j < i ==> before.contains_key(#[trigger] all[j]))
                                && e@ == "Unit "@ + all[i] + " not found."@;
                        first_missing_at(before, all, i);
                    }
                    Answer::Reply(Err(e))
                },
            }
        },
        UnitsOp::Clean => Answer::Perform(Work::Clean(units)),
        UnitsOp::Status => {
            let names = mgr.query_names(&units);
            let rows = statuses_of(&*mgr, &names, &facts.states);
            Answer::Reply(Ok(statuses_value(&rows)))
        },
        UnitsOp::IsActive => Answer::Reply(is_active(&*mgr, &units)),
        UnitsOp::IsFailed => Answer::Reply(is_failed(&*mgr, &units)),
        UnitsOp::Cat => match mgr.cat(&units, &facts.read_files) {
            Ok(v) => Answer::Reply(Ok(cats_value(&v))),
            Err(e) => Answer::Reply(Err(e)),
        },
        UnitsOp::Enable => Answer::Perform(Work::Enable(units)),
        UnitsOp::Disable => Answer::Perform(Work::Disable(units)),
        UnitsOp::Mask => Answer::Perform(Work::Mask(units)),
        UnitsOp::Unmask => Answer::Perform(Work::Unmask(units)),
        UnitsOp::Reenable => Answer::Perform(Work::Reenable(units)),
        UnitsOp::IsEnabled => {
            let states = states_for(&facts.states, &units);
            Answer::Reply(Ok(texts_value(&states)))
        },
    }
}

fn opt_slice(s: &Option<String>) -> (r: Option<&str>)
    ensures
        crate::manager::ops::opt_str(r) == opt_text(*s),
{
    match s {
        Some(t) => Some(t.as_str()),
        None => None,
    }
}

/// What the manager does about a request. For `cat`, what reading the file of
/// each unit gave has to be among the facts.
pub fn run_op(mgr: &mut Manager, request: Request, facts: &Facts) -> (r: Answer)
    requires
        request matches Request::Units { op: UnitsOp::Cat, units } ==> facts.read_files.len()
            == units.len(),
    ensures
        r@ == answered(old(mgr).units@, old(mgr).repo.paths(), request@, *facts),
        final(mgr).units@ == units_after(old(mgr).units@, request@),
        final(mgr).repo == old(mgr).repo,
{
    match request {
        Request::Units { op, units } => units_op(mgr, op, units, facts),
        Request::Kill { unit, signal } => Answer::Perform(Work::Kill(unit, signal)),
        Request::ListDependencies { name, reverse } => {
            let names = mgr.list_dependencies(name.as_str(), reverse, &facts.dirs);
            Answer::Reply(Ok(texts_value(&names)))
        },
        Request::ListUnits { types, state, pattern } => {
            let rows = mgr.list_unit_summaries(&types, opt_slice(&state), opt_slice(&pattern));
            Answer::Reply(Ok(summaries_value(&rows)))
        },
        Request::ListUnitFiles => {
            let rows = Manager::list_unit_file_info(&facts.files);
            Answer::Reply(Ok(files_value(&rows)))
        },
        Request::ListTimers => {
            let rows = mgr.list_timer_info(facts.now);
            Answer::Reply(Ok(timers_value(&rows)))
        },
        Request::Show { units, properties } => {
            let rows = mgr.show(&units, &properties, &facts.states);
            Answer::Reply(Ok(array_value(rows)))
        },
        Request::DaemonReload => Answer::Perform(Work::LoadAll),
        Request::GetDefault => {
            let name = Manager::get_default(facts.default_link.clone());
            Answer::Reply(Ok(text_value(name.as_str())))
        },
        Request::Repo => {
            let info = mgr.repo_info();
            Answer::Reply(Ok(repo_value(&info)))
        },
        Request::Journal { unit, since, tail } => {
            let lines = select_records(&facts.records, &unit, since, tail);
            let mut v = empty_object();
            put_member(&mut v, "records", records_value(&lines));
            put_member(&mut v, "dir", text_value(facts.journal_dir.as_str()));
            Answer::Reply(Ok(v))
        },
        Request::SetDefault { name } => Answer::Perform(Work::SetDefault(name)),
        Request::Isolate { name } => {
            let (stops, start) = mgr.isolate(name.as_str());
            Answer::Perform(Work::Isolate(stops, start))
        },
        Request::IsSystemRunning => {
            let failed = degraded(&*mgr);
            let mut v = empty_object();
            put_member(&mut v, "running", bool_value(!failed));
            put_member(&mut v, "degraded", bool_value(failed));
            Answer::Reply(Ok(v))
        },
        Request::Shutdown => Answer::Perform(Work::Shutdown),
    }
}

} // verus!
