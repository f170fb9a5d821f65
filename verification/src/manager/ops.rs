//! The operations on the manager's units: queries, and what each mutation
//! decides.

use vstd::prelude::*;

use crate::control::{
    all_normalized, Cat, CatEntry, FileInfo, Place, RepoInfo, Status, Summary, Timer, TimerInfo,
    UnitFileInfo, UnitStatus, UnitSummary,
};
use crate::json::{
    empty_object, int_value, json_of, put_member, text_value, Json,
};
use crate::manager::deps::{is_closure, reaches, start_closure, Edge};
use crate::manager::state::{
    activated, sub_text, timer_target, ActiveState, LoadState, SubState, Unit, UnitResult,
};
use crate::names::{normalize_unit, normalized};
use crate::order::{
    insert_named, insert_once, sorted, sorted_set_unique, sorting, sorting_is_ordered, views,
};
use crate::repo::domain::{definition_of, UnitDefinition};
use crate::repo::error::shown;
use crate::repo::store::Repo;
use crate::table::{are_sorted_keys, sorted_keys, Table};
use crate::text::{
    cat2, cat3, contains, dec, decimal, ends, ends_with, opt_text, owned, same, texts, within, Text,
};
use crate::unit::config::UnitKind;

verus! {

pub open spec fn load_text(l: LoadState) -> Text {
    match l {
        LoadState::Loaded => "loaded"@,
        LoadState::NotFound => "not-found"@,
        LoadState::Error => "error"@,
    }
}

/// A load state as it is shown.
pub fn load_str(l: LoadState) -> (r: &'static str)
    ensures
        r@ == load_text(l),
{
    match l {
        LoadState::Loaded => "loaded",
        LoadState::NotFound => "not-found",
        LoadState::Error => "error",
    }
}

pub open spec fn active_text(a: ActiveState) -> Text {
    match a {
        ActiveState::Inactive => "inactive"@,
        ActiveState::Activating => "activating"@,
        ActiveState::Active => "active"@,
        ActiveState::Deactivating => "deactivating"@,
        ActiveState::Failed => "failed"@,
    }
}

/// An active state as it is shown.
pub fn active_str(a: ActiveState) -> (r: &'static str)
    ensures
        r@ == active_text(a),
{
    match a {
        ActiveState::Inactive => "inactive",
        ActiveState::Activating => "activating",
        ActiveState::Active => "active",
        ActiveState::Deactivating => "deactivating",
        ActiveState::Failed => "failed",
    }
}

pub open spec fn result_text(x: UnitResult) -> Text {
    match x {
        UnitResult::Success => "success"@,
        UnitResult::ExitCode => "exit-code"@,
        UnitResult::Signal => "signal"@,
        UnitResult::Timeout => "timeout"@,
        UnitResult::StartLimitHit => "start-limit-hit"@,
        UnitResult::Dependency => "dependency"@,
        UnitResult::Resources => "resources"@,
        UnitResult::Protocol => "protocol"@,
        UnitResult::Watchdog => "watchdog"@,
        UnitResult::Exec => "exec"@,
        UnitResult::Unknown => "unknown"@,
    }
}

/// A result as it is shown.
pub fn result_str(x: UnitResult) -> (r: &'static str)
    ensures
        r@ == result_text(x),
{
    match x {
        UnitResult::Success => "success",
        UnitResult::ExitCode => "exit-code",
        UnitResult::Signal => "signal",
        UnitResult::Timeout => "timeout",
        UnitResult::StartLimitHit => "start-limit-hit",
        UnitResult::Dependency => "dependency",
        UnitResult::Resources => "resources",
        UnitResult::Protocol => "protocol",
        UnitResult::Watchdog => "watchdog",
        UnitResult::Exec => "exec",
        UnitResult::Unknown => "unknown",
    }
}

/// A time as seconds since the epoch; nothing for one before it.
pub open spec fn epoch_of(t: Option<i64>) -> Option<u64> {
    match t {
        Some(s) => if s >= 0 {
            Some(s as u64)
        } else {
            None
        },
        None => None,
    }
}

fn epoch(t: Option<i64>) -> (r: Option<u64>)
    ensures
        r == epoch_of(t),
{
    match t {
        Some(s) => if s >= 0 {
            Some(s as u64)
        } else {
            None
        },
        None => None,
    }
}

/// A unit's description; empty where it has none.
pub open spec fn description_text(u: Unit) -> Text {
    match u.file {
        Some(f) => f.unit.description@,
        None => seq![],
    }
}

fn description(u: &Unit) -> (r: String)
    ensures
        r@ == description_text(*u),
{
    match &u.file {
        Some(f) => f.unit.description.clone(),
        None => String::new(),
    }
}

/// The manager's units, and the repository that they come from.
pub struct Manager {
    pub units: Table<Unit>,
    pub repo: Repo,
}

// ---- status ---------------------------------------------------------------------

/// The status of a unit.
pub open spec fn unit_status(u: Unit, enabled: Text) -> Status {
    Status {
        name: u.name@,
        description: description_text(u),
        load: load_text(u.load),
        active: active_text(u.active),
        sub: sub_text(u.sub),
        result: result_text(u.result),
        main_pid: u.main_pid,
        path: opt_text(u.path),
        active_enter: epoch_of(u.active_enter),
        log: u.log@,
        enabled,
    }
}

// ---- list-units -----------------------------------------------------------------

/// Does a unit pass the filters of `list-units`?
pub open spec fn listed_unit(
    n: Text,
    u: Unit,
    types: Seq<Text>,
    state: Option<Text>,
    pattern: Option<Text>,
) -> bool {
    &&& u.load == LoadState::Loaded
    &&& match pattern {
        Some(p) => within(n, p) || (u.file is Some && within(description_text(u), p)),
        None => true,
    }
    &&& types.len() > 0 ==> exists|i: int|
        0 <= i < types.len() && ends(n, seq!['.'] + #[trigger] types[i])
    &&& match state {
        Some(s) => active_text(u.active) == s,
        None => true,
    }
}

pub open spec fn unit_summary(n: Text, u: Unit) -> Summary {
    Summary {
        unit: n,
        loaded: load_text(u.load),
        active: active_text(u.active),
        sub: sub_text(u.sub),
        description: description_text(u),
    }
}

/// The rows of the units of these names that pass the filters.
pub open spec fn summaries(
    units: Map<Text, Unit>,
    names: Seq<Text>,
    types: Seq<Text>,
    state: Option<Text>,
    pattern: Option<Text>,
) -> Seq<Summary>
    decreases names.len(),
{
    if names.len() == 0 {
        seq![]
    } else {
        let n = names.last();
        let rows = summaries(units, names.drop_last(), types, state, pattern);
        if listed_unit(n, units[n], types, state, pattern) {
            rows.push(unit_summary(n, units[n]))
        } else {
            rows
        }
    }
}

fn passes(
    n: &str,
    u: &Unit,
    types: &Vec<String>,
    state: Option<&str>,
    pattern: Option<&str>,
) -> (r: bool)
    ensures
        r == listed_unit(n@, *u, texts(types@), opt_str(state), opt_str(pattern)),
{
    if u.load != LoadState::Loaded {
        return false;
    }
    match pattern {
        Some(p) => {
            let in_description = match &u.file {
                Some(f) => contains(f.unit.description.as_str(), p),
                None => false,
            };
            if !contains(n, p) && !in_description {
                return false;
            }
        },
        None => {},
    }
    if types.len() > 0 {
        let mut found = false;
        let mut i: usize = 0;
        while i < types.len()
            invariant
                i <= types.len(),
                found == exists|j: int|
                    0 <= j < i && ends(n@, seq!['.'] + #[trigger] texts(types@)[j]),
            decreases types.len() - i,
        {
            let suffix = cat2(".", types[i].as_str());
            proof {
                reveal_strlit(".");
                assert(suffix@ =~= seq!['.'] + texts(types@)[i as int]);
            }
            let hit = ends_with(n, suffix.as_str());
            found = found || hit;
            i = i + 1;
        }
        if !found {
            return false;
        }
    }
    match state {
        Some(s) => same(active_str(u.active), s),
        None => true,
    }
}

/// The view of an optional string slice.
pub open spec fn opt_str(s: Option<&str>) -> Option<Text> {
    match s {
        Some(t) => Some(t@),
        None => None,
    }
}

// ---- list-timers ----------------------------------------------------------------

/// How far a time lies ahead, as a signed number; one that has passed is now.
pub open spec fn ahead(t: Option<u64>, now: u64) -> Option<i64> {
    match t {
        Some(e) => if e <= now {
            Some(0i64)
        } else {
            Some((e - now) as i64)
        },
        None => None,
    }
}

/// How far a time lies behind.
pub open spec fn behind(t: Option<u64>, now: u64) -> Option<i64> {
    match t {
        Some(e) => if now <= e {
            Some(0i64)
        } else {
            Some((now - e) as i64)
        },
        None => None,
    }
}

/// The calendar expressions of a timer's settings.
pub open spec fn calendar_texts(u: Unit) -> Seq<Text> {
    match u.file {
        Some(f) => match f.timer {
            Some(t) => views(t.on_calendar@),
            None => seq![],
        },
        None => seq![],
    }
}

pub open spec fn listed_timer(u: Unit) -> bool {
    u.kind == UnitKind::Timer && u.load == LoadState::Loaded && u.timer is Some
}

pub open spec fn timer_info(n: Text, u: Unit, now: u64) -> Timer {
    let next = epoch_of(u.timer->0.next_display);
    let last = epoch_of(u.timer->0.last_trigger);
    Timer {
        unit: n,
        activates: activated(u.name@, timer_target(u)),
        next,
        next_left: ahead(next, now),
        last,
        last_passed: behind(last, now),
        spec_strings: calendar_texts(u),
    }
}

/// The rows of the timers of these names.
pub open spec fn timer_infos(units: Map<Text, Unit>, names: Seq<Text>, now: u64) -> Seq<Timer>
    decreases names.len(),
{
    if names.len() == 0 {
        seq![]
    } else {
        let n = names.last();
        let rows = timer_infos(units, names.drop_last(), now);
        if listed_timer(units[n]) {
            rows.push(timer_info(n, units[n], now))
        } else {
            rows
        }
    }
}

fn calendar_strings(u: &Unit) -> (r: Vec<String>)
    ensures
        texts(r@) == calendar_texts(*u),
{
    let mut out: Vec<String> = Vec::new();
    match u.timer_cfg() {
        None => {
            assert(texts(out@) =~= seq![]);
        },
        Some(t) => {
            let mut i: usize = 0;
            while i < t.on_calendar.len()
                invariant
                    i <= t.on_calendar.len(),
                    out.len() == i,
                    forall|j: int|
                        0 <= j < i ==> (#[trigger] out@[j])@ == t.on_calendar@[j]@,
                decreases t.on_calendar.len() - i,
            {
                out.push(t.on_calendar[i].text.clone());
                i = i + 1;
            }
            assert(texts(out@) =~= views(t.on_calendar@));
        },
    }
    out
}

fn seconds_ahead(t: Option<u64>, now: u64) -> (r: Option<i64>)
    ensures
        r == ahead(t, now),
{
    match t {
        Some(e) => if e <= now {
            Some(0)
        } else {
            Some((e - now) as i64)
        },
        None => None,
    }
}

fn seconds_behind(t: Option<u64>, now: u64) -> (r: Option<i64>)
    ensures
        r == behind(t, now),
{
    match t {
        Some(e) => if now <= e {
            Some(0)
        } else {
            Some((now - e) as i64)
        },
        None => None,
    }
}

// ---- list-unit-files ------------------------------------------------------------

/// A file in a unit directory, and the enable state that a unit of its name
/// has.
#[derive(Debug, Clone, PartialEq, Eq)]
pub struct ListedFile {
    pub file: String,
    pub path: String,
    pub is_file: bool,
    pub state: String,
}

/// Is the file listed?
pub open spec fn is_unit_file(f: ListedFile) -> bool {
    f.is_file && (ends(f.file@, ".service"@) || ends(f.file@, ".timer"@) || ends(
        f.file@,
        ".target"@,
    ) || ends(f.file@, ".socket"@))
}

pub open spec fn file_infos(v: Seq<ListedFile>) -> Seq<FileInfo>
    decreases v.len(),
{
    if v.len() == 0 {
        seq![]
    } else {
        let f = v.last();
        if is_unit_file(f) {
            file_infos(v.drop_last()).push(
                FileInfo { file: f.file@, path: f.path@, state: f.state@ },
            )
        } else {
            file_infos(v.drop_last())
        }
    }
}

// ---- cat ------------------------------------------------------------------------

/// A unit file that was read: the name of the file, and its text.
#[derive(Debug, Clone, PartialEq, Eq)]
pub struct ReadFile {
    pub name: String,
    pub text: String,
}

/// What a unit's entry is, from what reading its file gave: the text as it was
/// read, where it is that of a unit.
pub open spec fn cat_entry(
    units: Map<Text, Unit>,
    n: Text,
    file: Result<ReadFile, String>,
) -> Result<Cat, Text> {
    if !units.contains_key(n) {
        Err("Unit "@ + n + " not found."@)
    } else {
        match units[n].path {
            None => Ok(Cat { unit: n, path: "(synthesized)"@, text: seq![] }),
            Some(p) => match file {
                Err(e) => Err(e@),
                Ok(f) => match definition_of(f.name@, f.text@) {
                    Err(e) => Err(shown(e)),
                    Ok(_) => Ok(Cat { unit: n, path: p@, text: f.text@ }),
                },
            },
        }
    }
}

/// The entries of units, or the first error among them.
pub open spec fn cat_entries(
    units: Map<Text, Unit>,
    names: Seq<Text>,
    files: Seq<Result<ReadFile, String>>,
) -> Result<Seq<Cat>, Text>
    decreases names.len(),
{
    if names.len() == 0 {
        Ok(seq![])
    } else {
        let k = names.len() - 1;
        match (
            cat_entries(units, names.drop_last(), files),
            cat_entry(units, names[k], files[k]),
        ) {
            (Err(e), _) => Err(e),
            (Ok(_), Err(e)) => Err(e),
            (Ok(v), Ok(c)) => Ok(v.push(c)),
        }
    }
}

proof fn cat_error_stays(
    units: Map<Text, Unit>,
    names: Seq<Text>,
    files: Seq<Result<ReadFile, String>>,
    i: int,
)
    requires
        0 <= i <= names.len(),
        cat_entries(units, names.take(i), files) is Err,
    ensures
        cat_entries(units, names, files) == cat_entries(units, names.take(i), files),
    decreases names.len(),
{
    if i == names.len() {
        assert(names.take(i) =~= names);
    } else {
        assert(names.drop_last().take(i) =~= names.take(i));
        cat_error_stays(units, names.drop_last(), files, i);
    }
}

// ---- show -----------------------------------------------------------------------

/// The time at which a unit became active, in decimal; empty where there is
/// none.
pub open spec fn enter_text(t: Option<i64>) -> Text {
    match epoch_of(t) {
        Some(s) => decimal(s as nat),
        None => seq![],
    }
}

/// What a property of a unit is.
pub open spec fn property(n: Text, u: Unit, state: Text, key: Text) -> Option<Json> {
    if key == "Id"@ {
        Some(Json::Str(n))
    } else if key == "LoadState"@ {
        Some(Json::Str(load_text(u.load)))
    } else if key == "ActiveState"@ {
        Some(Json::Str(active_text(u.active)))
    } else if key == "SubState"@ {
        Some(Json::Str(sub_text(u.sub)))
    } else if key == "MainPID"@ {
        Some(
            Json::Int(
                match u.main_pid {
                    Some(p) => p as int,
                    None => 0,
                },
            ),
        )
    } else if key == "Description"@ {
        Some(Json::Str(description_text(u)))
    } else if key == "UnitFileState"@ {
        Some(Json::Str(state))
    } else if key == "ActiveEnterTimestamp"@ {
        Some(Json::Str(enter_text(u.active_enter)))
    } else {
        None
    }
}

/// The properties of a unit: all of them, or those that are asked for.
pub open spec fn properties(n: Text, u: Unit, state: Text, props: Seq<Text>) -> Map<Text, Json> {
    Map::new(
        |k: Text| property(n, u, state, k) is Some && (props.len() == 0 || props.contains(k)),
        |k: Text| property(n, u, state, k)->0,
    )
}

/// The enable state of a unit, from a table of them; empty where it is missing.
pub open spec fn state_in(states: Map<Text, String>, n: Text) -> Text {
    if states.contains_key(n) {
        states[n]@
    } else {
        seq![]
    }
}

/// The properties of the units of these names; names that are no unit's are
/// left out.
pub open spec fn shown_units(
    units: Map<Text, Unit>,
    names: Seq<Text>,
    props: Seq<Text>,
    states: Map<Text, String>,
) -> Seq<Json>
    decreases names.len(),
{
    if names.len() == 0 {
        seq![]
    } else {
        let n = names.last();
        let rows = shown_units(units, names.drop_last(), props, states);
        if units.contains_key(n) {
            rows.push(Json::Obj(properties(n, units[n], state_in(states, n), props)))
        } else {
            rows
        }
    }
}

/// The names that a query is about: those given, or all units in order.
pub open spec fn query_list(units: Map<Text, Unit>, names: Seq<Text>) -> Seq<Text> {
    if names.len() == 0 {
        sorted_keys(units)
    } else {
        names
    }
}

/// Is the name in the list?
pub fn is_listed(v: &Vec<String>, name: &str) -> (r: bool)
    ensures
        r == texts(v@).contains(name@),
{
    let mut i: usize = 0;
    while i < v.len()
        invariant
            i <= v.len(),
            forall|j: int| 0 <= j < i ==> (#[trigger] texts(v@)[j]) != name@,
        decreases v.len() - i,
    {
        if same(v[i].as_str(), name) {
            assert(texts(v@)[i as int] == name@);
            return true;
        }
        i = i + 1;
    }
    false
}

// ---- mutations ------------------------------------------------------------------

/// What is done to a unit.
#[derive(Debug, Clone, Copy, PartialEq, Eq, Structural)]
pub enum Lifecycle {
    Start,
    Stop,
    Restart,
    Reload,
}

/// What `try-restart` does to a unit: one that is active, or becoming so, is
/// restarted, an inactive one is left alone, and any other one is started.
pub open spec fn try_restart_of(units: Map<Text, Unit>, n: Text) -> Option<Lifecycle> {
    if !units.contains_key(n) {
        Some(Lifecycle::Start)
    } else if units[n].active == ActiveState::Active || units[n].active
        == ActiveState::Activating {
        Some(Lifecycle::Restart)
    } else if units[n].active == ActiveState::Inactive {
        None
    } else {
        Some(Lifecycle::Start)
    }
}

/// Is a unit stopped when another one is isolated? All are that are not inactive,
/// but for that one and what it requires, directly or not.
pub open spec fn stopped_by_isolate(units: Map<Text, Unit>, n: Text, name: Text) -> bool {
    units.contains_key(n) && n != name && units[n].active != ActiveState::Inactive && !reaches(
        units,
        Edge::Requires,
        name,
        n,
    )
}

/// The units among these that are stopped when another one is isolated.
pub open spec fn isolate_stops(units: Map<Text, Unit>, names: Seq<Text>, name: Text) -> Seq<Text>
    decreases names.len(),
{
    if names.len() == 0 {
        seq![]
    } else if stopped_by_isolate(units, names.last(), name) {
        isolate_stops(units, names.drop_last(), name).push(names.last())
    } else {
        isolate_stops(units, names.drop_last(), name)
    }
}

/// A unit that no longer counts as failed.
pub open spec fn reset(u: Unit) -> Unit {
    if u.active == ActiveState::Failed {
        Unit {
            active: ActiveState::Inactive,
            sub: SubState::Dead,
            result: UnitResult::Success,
            ..u
        }
    } else {
        u
    }
}

/// The units after some of them were reset, in order, up to the first that is
/// not there.
pub open spec fn reset_all(units: Map<Text, Unit>, names: Seq<Text>) -> Map<Text, Unit>
    decreases names.len(),
{
    if names.len() == 0 {
        units
    } else {
        let before = reset_all(units, names.drop_last());
        if forall|i: int| 0 <= i < names.len() ==> units.contains_key(#[trigger] names[i]) {
            before.insert(names.last(), reset(before[names.last()]))
        } else {
            before
        }
    }
}

/// What a name depends on: what it requires and wants, by its settings and by
/// the links in its directories.
pub open spec fn dependency_of(
    units: Map<Text, Unit>,
    dirs: Map<Text, Vec<String>>,
    n: Text,
    d: Text,
) -> bool {
    ||| units.contains_key(n) && units[n].file is Some && (exists|i: int|
        0 <= i < units[n].file->0.unit.requires@.len() && d == normalized(
            #[trigger] units[n].file->0.unit.requires@[i]@,
        ))
    ||| units.contains_key(n) && units[n].file is Some && (exists|i: int|
        0 <= i < units[n].file->0.unit.wants@.len() && d == normalized(
            #[trigger] units[n].file->0.unit.wants@[i]@,
        ))
    ||| dirs.contains_key(n) && (exists|i: int|
        0 <= i < dirs[n]@.len() && d == normalized(#[trigger] dirs[n]@[i]@))
}

/// Is this what `list-dependencies` lists: what the unit depends on, or what
/// depends on it, each once and in order?
pub open spec fn is_dependency_list(
    units: Map<Text, Unit>,
    dirs: Map<Text, Vec<String>>,
    name: Text,
    reverse: bool,
    s: Seq<Text>,
) -> bool {
    &&& sorted(s)
    &&& s.no_duplicates()
    &&& forall|d: Text|
        #[trigger] s.contains(d) <==> (if reverse {
            units.contains_key(d) && dependency_of(units, dirs, d, name)
        } else {
            dependency_of(units, dirs, name, d)
        })
}

/// What `list-dependencies` lists.
pub open spec fn dependency_list(
    units: Map<Text, Unit>,
    dirs: Map<Text, Vec<String>>,
    name: Text,
    reverse: bool,
) -> Seq<Text> {
    choose|s: Seq<Text>| is_dependency_list(units, dirs, name, reverse, s)
}

/// There is only one such list.
pub proof fn dependency_list_unique(
    units: Map<Text, Unit>,
    dirs: Map<Text, Vec<String>>,
    name: Text,
    reverse: bool,
    s: Seq<Text>,
)
    requires
        is_dependency_list(units, dirs, name, reverse, s),
    ensures
        dependency_list(units, dirs, name, reverse) == s,
{
    let t = dependency_list(units, dirs, name, reverse);
    assert(is_dependency_list(units, dirs, name, reverse, t));
    assert forall|x: Text| s.contains(x) == t.contains(x) by {
        assert(s.contains(x) <==> t.contains(x));
    }
    sorted_set_unique(s, t);
}

/// Put the normalized names into an ordered list.
fn add_normalized(v: &mut Vec<String>, names: &Vec<String>)
    requires
        sorted(texts(old(v)@)),
        texts(old(v)@).no_duplicates(),
    ensures
        sorted(texts(final(v)@)),
        texts(final(v)@).no_duplicates(),
        forall|x: Text|
            #[trigger] texts(final(v)@).contains(x) <==> (texts(old(v)@).contains(x) || exists|i: int|
                0 <= i < names@.len() && x == normalized(#[trigger] names@[i]@)),
{
    let mut i: usize = 0;
    while i < names.len()
        invariant
            i <= names.len(),
            sorted(texts(v@)),
            texts(v@).no_duplicates(),
            forall|x: Text|
                #[trigger] texts(v@).contains(x) <==> (texts(old(v)@).contains(x) || exists|j: int|
                    0 <= j < i && x == normalized(#[trigger] names@[j]@)),
        decreases names.len() - i,
    {
        let ghost was = texts(v@);
        insert_once(v, normalize_unit(names[i].as_str()));
        proof {
            assert forall|x: Text| #[trigger] texts(v@).contains(x) <==> (texts(old(v)@).contains(
                x,
            ) || exists|j: int| 0 <= j < i + 1 && x == normalized(#[trigger] names@[j]@)) by {
                assert(was.contains(x) <==> (texts(old(v)@).contains(x) || exists|j: int|
                    0 <= j < i && x == normalized(#[trigger] names@[j]@)));
                if exists|j: int| 0 <= j < i + 1 && x == normalized(#[trigger] names@[j]@) {
                    let j = choose|j: int|
                        0 <= j < i + 1 && x == normalized(#[trigger] names@[j]@);
                    if j < i {
                        assert(0 <= j < i && x == normalized(names@[j]@));
                    }
                }
                assert(x == normalized(names@[i as int]@) ==> exists|j: int|
                    0 <= j < i + 1 && x == normalized(#[trigger] names@[j]@));
            }
        }
        i = i + 1;
    }
}

/// Is a file in the journal a segment of the unit's journal?
pub open spec fn is_segment_of(file: Text, unit: Text) -> bool {
    file == unit || (file.len() > unit.len() && file.take(unit.len() as int) == unit
        && file[unit.len() as int] == '.')
}

/// Is a file in the journal a segment of the unit's journal?
pub fn is_segment(file: &str, unit: &str) -> (r: bool)
    ensures
        r == is_segment_of(file@, unit@),
{
    if same(file, unit) {
        return true;
    }
    match crate::text::strip_prefix(file, unit) {
        Some(rest) => {
            let r = crate::text::starts_with_char(rest, '.');
            proof {
                if rest@.len() > 0 {
                    assert(rest@[0] == file@[unit@.len() as int]);
                } else {
                    assert(file@ =~= unit@);
                }
            }
            r
        },
        None => false,
    }
}

/// What cleaning a unit reports.
pub open spec fn clean_text(unit: Text, cleaned: bool) -> Text {
    if cleaned {
        "Cleaned runtime state of "@ + unit + "."@
    } else {
        "Clean "@ + unit + ": nothing to clean."@
    }
}

impl Manager {
    /// Status of a unit. `enabled` is its enable state.
    pub fn status_of(&self, name: &str, enabled: &str) -> (r: Option<UnitStatus>)
        ensures
            match r {
                Some(s) => self.units@.contains_key(name@) && s@ == unit_status(
                    self.units@[name@],
                    enabled@,
                ),
                None => !self.units@.contains_key(name@),
            },
    {
        match self.units.get(name) {
            None => None,
            Some(u) => Some(
                UnitStatus {
                    name: u.name.clone(),
                    description: description(u),
                    load: owned(load_str(u.load)),
                    active: owned(active_str(u.active)),
                    sub: owned(u.sub.as_str()),
                    result: owned(result_str(u.result)),
                    main_pid: u.main_pid,
                    path: u.path.clone(),
                    active_enter: epoch(u.active_enter),
                    log: u.log.snapshot(),
                    enabled: owned(enabled),
                },
            ),
        }
    }

    /// `list-units`: the loaded units, by name, filtered by type, state and
    /// pattern.
    pub fn list_unit_summaries(
        &self,
        types: &Vec<String>,
        state: Option<&str>,
        pattern: Option<&str>,
    ) -> (r: Vec<UnitSummary>)
        ensures
            views(r@) == summaries(
                self.units@,
                sorted_keys(self.units@),
                texts(types@),
                opt_str(state),
                opt_str(pattern),
            ),
    {
        let names = self.units.sorted_names();
        let mut rows: Vec<UnitSummary> = Vec::new();
        let mut i: usize = 0;
        proof {
            assert(texts(names@).take(0) =~= seq![]);
            assert(views(rows@) =~= seq![]);
        }
        while i < names.len()
            invariant
                i <= names.len(),
                are_sorted_keys(self.units@, texts(names@)),
                views(rows@) == summaries(
                    self.units@,
                    texts(names@).take(i as int),
                    texts(types@),
                    opt_str(state),
                    opt_str(pattern),
                ),
            decreases names.len() - i,
        {
            let ghost upto = texts(names@).take(i + 1);
            let n = names[i].as_str();
            proof {
                assert(upto.drop_last() =~= texts(names@).take(i as int));
                assert(upto.last() == n@);
                assert(texts(names@)[i as int] == n@);
                assert(texts(names@).contains(n@));
            }
            match self.units.get(n) {
                None => {},
                Some(u) => {
                    if passes(n, u, types, state, pattern) {
                        let ghost was = rows@;
                        let row = UnitSummary {
                            unit: owned(n),
                            loaded: owned(load_str(u.load)),
                            active: owned(active_str(u.active)),
                            sub: owned(u.sub.as_str()),
                            description: description(u),
                        };
                        let ghost shown_row = row@;
                        rows.push(row);
                        assert(views(rows@) =~= views(was).push(shown_row));
                    }
                },
            }
            i = i + 1;
        }
        assert(texts(names@).take(names.len() as int) =~= texts(names@));
        rows
    }

    /// `list-timers`: the loaded timers, by name. `now` is the time in seconds
    /// since the epoch.
    pub fn list_timer_info(&self, now: u64) -> (r: Vec<TimerInfo>)
        ensures
            views(r@) == timer_infos(self.units@, sorted_keys(self.units@), now),
    {
        let names = self.units.sorted_names();
        let mut rows: Vec<TimerInfo> = Vec::new();
        let mut i: usize = 0;
        proof {
            assert(texts(names@).take(0) =~= seq![]);
            assert(views(rows@) =~= seq![]);
        }
        while i < names.len()
            invariant
                i <= names.len(),
                are_sorted_keys(self.units@, texts(names@)),
                views(rows@) == timer_infos(self.units@, texts(names@).take(i as int), now),
            decreases names.len() - i,
        {
            let ghost upto = texts(names@).take(i + 1);
            let n = names[i].as_str();
            proof {
                assert(upto.drop_last() =~= texts(names@).take(i as int));
                assert(upto.last() == n@);
                assert(texts(names@)[i as int] == n@);
                assert(texts(names@).contains(n@));
            }
            match self.units.get(n) {
                None => {},
                Some(u) => {
                    if u.kind == UnitKind::Timer && u.load == LoadState::Loaded {
                        match &u.timer {
                            None => {},
                            Some(t) => {
                                let next = epoch(t.next_display);
                                let last = epoch(t.last_trigger);
                                let ghost was = rows@;
                                let row = TimerInfo {
                                    unit: owned(n),
                                    activates: u.activated_unit(),
                                    next,
                                    next_left: seconds_ahead(next, now),
                                    last,
                                    last_passed: seconds_behind(last, now),
                                    spec_strings: calendar_strings(u),
                                };
                                let ghost shown_row = row@;
                                rows.push(row);
                                assert(views(rows@) =~= views(was).push(shown_row));
                            },
                        }
                    }
                },
            }
            i = i + 1;
        }
        assert(texts(names@).take(names.len() as int) =~= texts(names@));
        rows
    }

    /// `list-unit-files`: the unit files among those in the unit directories,
    /// by name.
    pub fn list_unit_file_info(files: &Vec<ListedFile>) -> (r: Vec<UnitFileInfo>)
        ensures
            views(r@) == sorting::<UnitFileInfo>(file_infos(files@)),
    {
        let mut rows: Vec<UnitFileInfo> = Vec::new();
        let mut i: usize = 0;
        proof {
            assert(files@.take(0) =~= seq![]);
            assert(views(rows@) =~= sorting::<UnitFileInfo>(file_infos(files@.take(0))));
        }
        while i < files.len()
            invariant
                i <= files.len(),
                views(rows@) == sorting::<UnitFileInfo>(file_infos(files@.take(i as int))),
            decreases files.len() - i,
        {
            let ghost upto = files@.take(i + 1);
            let f = &files[i];
            let name = f.file.as_str();
            proof {
                assert(upto.drop_last() =~= files@.take(i as int));
                sorting_is_ordered::<UnitFileInfo>(file_infos(files@.take(i as int)));
            }
            if f.is_file && (ends_with(name, ".service") || ends_with(name, ".timer") || ends_with(
                name,
                ".target",
            ) || ends_with(name, ".socket")) {
                let row = UnitFileInfo {
                    file: f.file.clone(),
                    path: f.path.clone(),
                    state: f.state.clone(),
                };
                let ghost shown_row = row@;
                let ghost before = file_infos(files@.take(i as int));
                insert_named(&mut rows, row);
                proof {
                    assert(file_infos(upto) == before.push(shown_row));
                    assert(before.push(shown_row).drop_last() =~= before);
                }
            }
            i = i + 1;
        }
        assert(files@.take(files.len() as int) =~= files@);
        rows
    }

    /// `cat`: the raw text of the unit files of units. `files` has, for each
    /// unit, what reading its file gave; it does not matter for one that has no
    /// file.
    pub fn cat(&self, units: &Vec<String>, files: &Vec<Result<ReadFile, String>>) -> (r: Result<
        Vec<CatEntry>,
        String,
    >)
        requires
            files.len() == units.len(),
        ensures
            match r {
                Ok(v) => cat_entries(self.units@, texts(units@), files@) == Ok::<Seq<Cat>, Text>(
                    views(v@),
                ),
                Err(e) => cat_entries(self.units@, texts(units@), files@) == Err::<
                    Seq<Cat>,
                    Text,
                >(e@),
            },
    {
        let mut out: Vec<CatEntry> = Vec::new();
        let mut i: usize = 0;
        proof {
            assert(texts(units@).take(0) =~= seq![]);
            assert(views(out@) =~= seq![]);
        }
        while i < units.len()
            invariant
                i <= units.len(),
                files.len() == units.len(),
                cat_entries(self.units@, texts(units@).take(i as int), files@) == Ok::<
                    Seq<Cat>,
                    Text,
                >(views(out@)),
            decreases units.len() - i,
        {
            let ghost upto = texts(units@).take(i + 1);
            let name = units[i].as_str();
            proof {
                assert(upto.drop_last() =~= texts(units@).take(i as int));
                assert(upto.last() == name@);
            }
            let entry = match self.cat_one(name, &files[i]) {
                Ok(c) => c,
                Err(e) => {
                    proof {
                        cat_error_stays(self.units@, texts(units@), files@, i + 1);
                    }
                    return Err(e);
                },
            };
            let ghost was = out@;
            let ghost shown_entry = entry@;
            out.push(entry);
            assert(views(out@) =~= views(was).push(shown_entry));
            i = i + 1;
        }
        assert(texts(units@).take(units.len() as int) =~= texts(units@));
        Ok(out)
    }

    fn cat_one(&self, name: &str, file: &Result<ReadFile, String>) -> (r: Result<CatEntry, String>)
        ensures
            match r {
                Ok(c) => cat_entry(self.units@, name@, *file) == Ok::<Cat, Text>(c@),
                Err(e) => cat_entry(self.units@, name@, *file) == Err::<Cat, Text>(e@),
            },
    {
        let unit = match self.units.get(name) {
            Some(u) => u,
            None => {
                return Err(cat3("Unit ", name, " not found."));
            },
        };
        match &unit.path {
            None => Ok(
                CatEntry { unit: owned(name), path: owned("(synthesized)"), text: String::new() },
            ),
            Some(p) => match file {
                Err(e) => Err(e.clone()),
                Ok(f) => match UnitDefinition::parse(f.name.as_str(), f.text.as_str()) {
                    Err(e) => Err(e.message()),
                    Ok(_) => Ok(
                        CatEntry { unit: owned(name), path: p.clone(), text: f.text.clone() },
                    ),
                },
            },
        }
    }

    /// `show`: the properties of units (of all, where none is named), all of
    /// them or those that are asked for. `states` has the enable states.
    pub fn show(&self, units: &Vec<String>, props: &Vec<String>, states: &Table<String>) -> (r: Vec<
        serde_json::Value,
    >)
        ensures
            crate::json::jsons_of(r@) == shown_units(
                self.units@,
                query_list(self.units@, texts(units@)),
                texts(props@),
                states@,
            ),
    {
        let names = self.query_names(units);
        let mut out: Vec<serde_json::Value> = Vec::new();
        let mut i: usize = 0;
        proof {
            assert(texts(names@).take(0) =~= seq![]);
            assert(crate::json::jsons_of(out@) =~= seq![]);
        }
        while i < names.len()
            invariant
                i <= names.len(),
                crate::json::jsons_of(out@) == shown_units(
                    self.units@,
                    texts(names@).take(i as int),
                    texts(props@),
                    states@,
                ),
            decreases names.len() - i,
        {
            let ghost upto = texts(names@).take(i + 1);
            let n = names[i].as_str();
            proof {
                assert(upto.drop_last() =~= texts(names@).take(i as int));
                assert(upto.last() == n@);
            }
            match self.units.get(n) {
                None => {},
                Some(u) => {
                    let state = match states.get(n) {
                        Some(s) => s.clone(),
                        None => String::new(),
                    };
                    let v = show_unit(n, u, state.as_str(), props);
                    let ghost was = out@;
                    let ghost j = json_of(v);
                    out.push(v);
                    assert(crate::json::jsons_of(out@) =~= crate::json::jsons_of(was).push(j));
                },
            }
            i = i + 1;
        }
        assert(texts(names@).take(names.len() as int) =~= texts(names@));
        out
    }

    /// The names that a query is about: those given, or all units in order.
    pub fn query_names(&self, units: &Vec<String>) -> (r: Vec<String>)
        ensures
            texts(r@) == query_list(self.units@, texts(units@)),
    {
        if units.len() == 0 {
            self.units.sorted_names()
        } else {
            let mut out: Vec<String> = Vec::new();
            let mut i: usize = 0;
            while i < units.len()
                invariant
                    i <= units.len(),
                    out.len() == i,
                    forall|j: int| 0 <= j < i ==> (#[trigger] out@[j])@ == units@[j]@,
                decreases units.len() - i,
            {
                out.push(units[i].clone());
                i = i + 1;
            }
            assert(texts(out@) =~= texts(units@));
            out
        }
    }

    /// The default target: the one that the link `default.target` names.
    pub fn get_default(link: Option<String>) -> (r: String)
        ensures
            r@ == (match link {
                Some(t) => t@,
                None => "default.target"@,
            }),
    {
        match link {
            Some(t) => t,
            None => owned("default.target"),
        }
    }

    /// The file that `default.target` is pointed at. `found` is the unit file
    /// of that name.
    pub fn set_default(name: &str, found: Option<String>) -> (r: Result<String, String>)
        ensures
            match r {
                Ok(p) => found is Some && p@ == (found->0)@,
                Err(e) => found is None && e@ == "unit "@ + name@ + " not found"@,
            },
    {
        match found {
            Some(p) => Ok(p),
            None => Err(cat3("unit ", name, " not found")),
        }
    }

    /// `repo`: the unit repository that the manager uses.
    pub fn repo_info(&self) -> (r: RepoInfo)
        ensures
            self.repo.paths().len() > 0,
            r@ == (Place { root: self.repo.paths()[0], roots: self.repo.paths() }),
    {
        let all = self.repo.roots();
        let mut roots: Vec<String> = Vec::new();
        let mut i: usize = 0;
        while i < all.len()
            invariant
                i <= all.len(),
                roots.len() == i,
                forall|j: int| 0 <= j < i ==> (#[trigger] roots@[j])@ == all@[j]@,
            decreases all.len() - i,
        {
            roots.push(all[i].clone());
            i = i + 1;
        }
        assert(texts(roots@) =~= texts(all@));
        RepoInfo { root: owned(self.repo.root()), roots }
    }

    /// `isolate`: what is stopped, by name, before the unit is started; and the
    /// unit's full name.
    pub fn isolate(&self, name: &str) -> (r: (Vec<String>, String))
        ensures
            r.1@ == normalized(name@),
            texts(r.0@) == isolate_stops(
                self.units@,
                sorted_keys(self.units@),
                normalized(name@),
            ),
    {
        let name = normalize_unit(name);
        let (needs, _, _) = start_closure(&self.units, name.as_str());
        let names = self.units.sorted_names();
        let mut out: Vec<String> = Vec::new();
        let mut i: usize = 0;
        proof {
            assert(texts(names@).take(0) =~= seq![]);
            assert(texts(out@) =~= seq![]);
        }
        while i < names.len()
            invariant
                i <= names.len(),
                is_closure(self.units@, Edge::Requires, name@, texts(needs@)),
                texts(out@) == isolate_stops(self.units@, texts(names@).take(i as int), name@),
            decreases names.len() - i,
        {
            let n = names[i].as_str();
            let ghost upto = texts(names@).take(i + 1);
            let ghost was = out@;
            proof {
                assert(upto.drop_last() =~= texts(names@).take(i as int));
                assert(upto.last() == n@);
            }
            match self.units.get(n) {
                None => {},
                Some(u) => {
                    if !same(n, name.as_str()) && u.active != ActiveState::Inactive && !is_listed(
                        &needs,
                        n,
                    ) {
                        out.push(owned(n));
                        assert(texts(out@) =~= texts(was).push(n@));
                    }
                },
            }
            i = i + 1;
        }
        assert(texts(names@).take(names.len() as int) =~= texts(names@));
        (out, name)
    }

    /// `try-restart`: what is done to each unit as things stand; nothing to one
    /// that is inactive.
    pub fn try_restart_units(&self, names: &Vec<String>) -> (r: Vec<Option<Lifecycle>>)
        ensures
            r@ == Seq::new(names.len() as nat, |i: int| try_restart_of(self.units@, names[i]@)),
    {
        let mut out: Vec<Option<Lifecycle>> = Vec::new();
        let mut i: usize = 0;
        while i < names.len()
            invariant
                i <= names.len(),
                out@ == Seq::new(i as nat, |j: int| try_restart_of(self.units@, names[j]@)),
            decreases names.len() - i,
        {
            let step = match self.units.get(names[i].as_str()) {
                Some(u) => match u.active {
                    ActiveState::Active | ActiveState::Activating => Some(Lifecycle::Restart),
                    ActiveState::Inactive => None,
                    _ => Some(Lifecycle::Start),
                },
                None => Some(Lifecycle::Start),
            };
            out.push(step);
            i = i + 1;
            assert(out@ =~= Seq::new(i as nat, |j: int| try_restart_of(self.units@, names[j]@)));
        }
        out
    }

    /// `reset-failed`: units that failed are inactive again. At the first name
    /// that is no unit's it ends.
    pub fn reset_failed_units(&mut self, names: &Vec<String>) -> (r: Result<(), String>)
        ensures
            final(self).repo == old(self).repo,
            final(self).units@ == reset_all(old(self).units@, texts(names@)),
            match r {
                Ok(_) => forall|i: int|
                    0 <= i < names.len() ==> old(self).units@.contains_key(
                        #[trigger] texts(names@)[i],
                    ),
                Err(e) => exists|i: int|
                    0 <= i < names.len() && !old(self).units@.contains_key(
                        #[trigger] texts(names@)[i],
                    ) && (forall|j: int|
                        0 <= j < i ==> old(self).units@.contains_key(#[trigger] texts(names@)[j]))
                        && e@ == "Unit "@ + texts(names@)[i] + " not found."@,
            },
    {
        let ghost first = self.units@;
        let ghost all = texts(names@);
        let mut i: usize = 0;
        assert(all.take(0) =~= seq![]);
        while i < names.len()
            invariant
                i <= names.len(),
                all == texts(names@),
                first == old(self).units@,
                self.repo == old(self).repo,
                self.units@ == reset_all(first, all.take(i as int)),
                self.units@.dom() == first.dom(),
                forall|j: int| 0 <= j < i ==> first.contains_key(#[trigger] all[j]),
            decreases names.len() - i,
        {
            let name = names[i].as_str();
            let ghost upto = all.take(i + 1);
            let ghost before = self.units@;
            proof {
                assert(upto.drop_last() =~= all.take(i as int));
                assert(upto.last() == name@);
                assert(all[i as int] == name@);
            }
            match self.units.remove(name) {
                None => {
                    proof {
                        assert(self.units@ =~= before);
                        assert(!first.contains_key(all[i as int]));
                        reset_stops(first, all, i as int);
                    }
                    return Err(cat3("Unit ", name, " not found."));
                },
                Some(mut u) => {
                    let ghost was = u;
                    if u.active == ActiveState::Failed {
                        u.active = ActiveState::Inactive;
                        u.sub = SubState::Dead;
                        u.result = UnitResult::Success;
                    }
                    assert(u == reset(was));
                    self.units.insert(owned(name), u);
                    proof {
                        assert(forall|j: int|
                            0 <= j < upto.len() ==> first.contains_key(#[trigger] upto[j])) by {
                            assert forall|j: int| 0 <= j < upto.len() implies first.contains_key(
                                #[trigger] upto[j],
                            ) by {
                                assert(upto[j] == all[j]);
                            }
                        }
                        assert(self.units@ =~= before.insert(name@, reset(before[name@])));
                        assert(self.units@.dom() =~= first.dom());
                    }
                },
            }
            i = i + 1;
        }
        assert(all.take(names.len() as int) =~= all);
        Ok(())
    }

    /// `list-dependencies`: what the unit requires and wants, or what requires
    /// and wants it; each once, in order. `dirs` has, for each unit, the names
    /// in its `.wants` and `.requires` directories.
    pub fn list_dependencies(&self, name: &str, reverse: bool, dirs: &Table<Vec<String>>) -> (r: Vec<
        String,
    >)
        ensures
            is_dependency_list(self.units@, dirs@, normalized(name@), reverse, texts(r@)),
            texts(r@) == dependency_list(self.units@, dirs@, normalized(name@), reverse),
    {
        let full = normalize_unit(name);
        if !reverse {
            let out = self.dependencies_of(full.as_str(), dirs);
            proof {
                dependency_list_unique(self.units@, dirs@, full@, reverse, texts(out@));
            }
            return out;
        }
        let names = self.units.sorted_names();
        let mut out: Vec<String> = Vec::new();
        let mut i: usize = 0;
        while i < names.len()
            invariant
                i <= names.len(),
                are_sorted_keys(self.units@, texts(names@)),
                sorted(texts(out@)),
                texts(out@).no_duplicates(),
                forall|d: Text|
                    #[trigger] texts(out@).contains(d) <==> (dependency_of(
                        self.units@,
                        dirs@,
                        d,
                        full@,
                    ) && exists|j: int| 0 <= j < i && texts(names@)[j] == d),
            decreases names.len() - i,
        {
            let n = names[i].as_str();
            let ghost was = texts(out@);
            assert(texts(names@)[i as int] == n@);
            let ds = self.dependencies_of(n, dirs);
            if is_listed(&ds, full.as_str()) {
                insert_once(&mut out, owned(n));
            }
            proof {
                assert forall|d: Text| #[trigger] texts(out@).contains(d) <==> (dependency_of(
                    self.units@,
                    dirs@,
                    d,
                    full@,
                ) && exists|j: int| 0 <= j < i + 1 && texts(names@)[j] == d) by {
                    assert(was.contains(d) <==> (dependency_of(self.units@, dirs@, d, full@)
                        && exists|j: int| 0 <= j < i && texts(names@)[j] == d));
                    if exists|j: int| 0 <= j < i + 1 && texts(names@)[j] == d {
                        let j = choose|j: int| 0 <= j < i + 1 && texts(names@)[j] == d;
                        if j < i {
                            assert(0 <= j < i && texts(names@)[j] == d);
                        }
                    }
                    if was.contains(d) {
                        let j = choose|j: int| 0 <= j < i && texts(names@)[j] == d;
                        assert(0 <= j < i + 1 && texts(names@)[j] == d);
                    }
                    assert(texts(names@)[i as int] == n@);
                }
            }
            i = i + 1;
        }
        proof {
            assert forall|d: Text| #[trigger] texts(out@).contains(d) <==> (
            self.units@.contains_key(d) && dependency_of(self.units@, dirs@, d, full@)) by {
                assert(self.units@.contains_key(d) == texts(names@).contains(d));
                if self.units@.contains_key(d) {
                    let j = choose|j: int| 0 <= j < names.len() && texts(names@)[j] == d;
                    assert(texts(names@)[j] == d);
                }
            }
            dependency_list_unique(self.units@, dirs@, full@, reverse, texts(out@));
        }
        out
    }

    fn dependencies_of(&self, n: &str, dirs: &Table<Vec<String>>) -> (r: Vec<String>)
        ensures
            sorted(texts(r@)),
            texts(r@).no_duplicates(),
            forall|d: Text|
                #[trigger] texts(r@).contains(d) <==> dependency_of(self.units@, dirs@, n@, d),
    {
        let mut out: Vec<String> = Vec::new();
        assert(texts(out@) =~= seq![]);
        match self.units.get(n) {
            Some(u) => match &u.file {
                Some(f) => {
                    add_normalized(&mut out, &f.unit.requires);
                    add_normalized(&mut out, &f.unit.wants);
                },
                None => {},
            },
            None => {},
        }
        match dirs.get(n) {
            Some(v) => {
                add_normalized(&mut out, v);
            },
            None => {},
        }
        out
    }

    /// `mask` and `unmask`: the full names of the units whose links are made or
    /// removed, in order.
    pub fn mask_units(names: &Vec<String>) -> (r: Vec<String>)
        ensures
            texts(r@) == all_normalized(texts(names@)),
    {
        crate::control::normalize(names)
    }

    /// See [`Manager::mask_units`].
    pub fn unmask_units(names: &Vec<String>) -> (r: Vec<String>)
        ensures
            texts(r@) == all_normalized(texts(names@)),
    {
        crate::control::normalize(names)
    }

    /// `reenable`: the full names of the units that are disabled and enabled
    /// again, in order.
    pub fn reenable_units(names: &Vec<String>) -> (r: Vec<String>)
        ensures
            texts(r@) == all_normalized(texts(names@)),
    {
        crate::control::normalize(names)
    }

    /// `clean`: what is reported for each unit. `cleaned` says, for each one,
    /// whether it had directories or journal segments.
    pub fn clean_units(names: &Vec<String>, cleaned: &Vec<bool>) -> (r: Vec<String>)
        requires
            cleaned.len() == names.len(),
        ensures
            texts(r@) == Seq::new(
                names.len() as nat,
                |i: int| clean_text(normalized(names[i]@), cleaned[i]),
            ),
    {
        let mut out: Vec<String> = Vec::new();
        let mut i: usize = 0;
        while i < names.len()
            invariant
                i <= names.len(),
                cleaned.len() == names.len(),
                out.len() == i,
                forall|j: int|
                    0 <= j < i ==> (#[trigger] out@[j])@ == clean_text(
                        normalized(names@[j]@),
                        cleaned@[j],
                    ),
            decreases names.len() - i,
        {
            let unit = normalize_unit(names[i].as_str());
            if cleaned[i] {
                out.push(cat3("Cleaned runtime state of ", unit.as_str(), "."));
            } else {
                out.push(cat3("Clean ", unit.as_str(), ": nothing to clean."));
            }
            i = i + 1;
        }
        assert(texts(out@) =~= Seq::new(
            names.len() as nat,
            |i: int| clean_text(normalized(names[i]@), cleaned[i]),
        ));
        out
    }
}

/// Nothing is reset from the first unknown name on.
proof fn reset_stops(units: Map<Text, Unit>, names: Seq<Text>, i: int)
    requires
        0 <= i < names.len(),
        !units.contains_key(names[i]),
    ensures
        reset_all(units, names) == reset_all(units, names.take(i)),
    decreases names.len(),
{
    assert(!(forall|j: int| 0 <= j < names.len() ==> units.contains_key(#[trigger] names[j])));
    if i < names.len() - 1 {
        assert(names.drop_last()[i] == names[i]);
        assert(names.drop_last().take(i) =~= names.take(i));
        reset_stops(units, names.drop_last(), i);
    } else {
        assert(names.drop_last() =~= names.take(i));
    }
}

/// Isolating a unit stops the units that are not inactive, but for itself and
/// what it requires, and nothing else.
pub proof fn isolating_stops_what_is_not_required(
    units: Map<Text, Unit>,
    names: Seq<Text>,
    name: Text,
    n: Text,
)
    requires
        are_sorted_keys(units, names),
    ensures
        isolate_stops(units, names, name).contains(n) <==> stopped_by_isolate(units, n, name),
{
    assert(units.contains_key(n) == names.contains(n));
    isolate_keeps(units, names, name, n);
}

proof fn isolate_keeps(units: Map<Text, Unit>, names: Seq<Text>, name: Text, n: Text)
    ensures
        isolate_stops(units, names, name).contains(n) <==> names.contains(n) && stopped_by_isolate(
            units,
            n,
            name,
        ),
    decreases names.len(),
{
    if names.len() > 0 {
        let init = names.drop_last();
        isolate_keeps(units, init, name, n);
        let a = isolate_stops(units, init, name);
        let b = isolate_stops(units, names, name);
        if init.contains(n) {
            let j = choose|j: int| 0 <= j < init.len() && init[j] == n;
            assert(names[j] == n);
        }
        if names.contains(n) && !init.contains(n) {
            let j = choose|j: int| 0 <= j < names.len() && names[j] == n;
            if j < init.len() {
                assert(init[j] == n);
            }
            assert(names.last() == n);
        }
        if a.contains(n) {
            let j = choose|j: int| 0 <= j < a.len() && a[j] == n;
            assert(b[j] == n);
        }
        if b.contains(n) && !a.contains(n) {
            let j = choose|j: int| 0 <= j < b.len() && b[j] == n;
            if j < a.len() {
                assert(a[j] == n);
            }
            assert(names.last() == n);
        }
        if names.last() == n && stopped_by_isolate(units, n, name) {
            assert(b.last() == n);
        }
        assert(names.last() == n ==> names.contains(n)) by {
            if names.last() == n {
                assert(names[names.len() - 1] == n);
            }
        }
    }
}

/// A unit that was reset has not failed; all other units stay as they were.
pub proof fn resetting_clears_failures(units: Map<Text, Unit>, names: Seq<Text>, n: Text)
    requires
        forall|i: int| 0 <= i < names.len() ==> units.contains_key(#[trigger] names[i]),
        units.contains_key(n),
    ensures
        reset_all(units, names).contains_key(n),
        names.contains(n) ==> reset_all(units, names)[n] == reset(units[n]),
        names.contains(n) ==> reset_all(units, names)[n].active != ActiveState::Failed,
        !names.contains(n) ==> reset_all(units, names)[n] == units[n],
    decreases names.len(),
{
    if names.len() > 0 {
        let init = names.drop_last();
        assert forall|i: int| 0 <= i < init.len() implies units.contains_key(
            #[trigger] init[i],
        ) by {
            assert(init[i] == names[i]);
        }
        resetting_clears_failures(units, init, n);
        if init.contains(n) {
            let j = choose|j: int| 0 <= j < init.len() && init[j] == n;
            assert(names[j] == n);
        }
        if names.last() == n {
            assert(names[names.len() - 1] == n);
        }
        if names.contains(n) && names.last() != n {
            let j = choose|j: int| 0 <= j < names.len() && names[j] == n;
            assert(init[j] == n);
        }
    }
}

/// The reverse list mirrors the other one: a unit is on the reverse list of
/// what is on its own list, and of nothing else.
pub proof fn reverse_lists_mirror(
    units: Map<Text, Unit>,
    dirs: Map<Text, Vec<String>>,
    a: Text,
    b: Text,
    needs_of_a: Seq<Text>,
    needed_by_b: Seq<Text>,
)
    requires
        units.contains_key(a),
        is_dependency_list(units, dirs, a, false, needs_of_a),
        is_dependency_list(units, dirs, b, true, needed_by_b),
    ensures
        needs_of_a.contains(b) <==> needed_by_b.contains(a),
{
}

/// The properties of one unit.
fn show_unit(n: &str, u: &Unit, state: &str, props: &Vec<String>) -> (r: serde_json::Value)
    ensures
        json_of(r) == Json::Obj(properties(n@, *u, state@, texts(props@))),
{
    let mut v = empty_object();
    let all = props.len() == 0;
    if all || is_listed(props, "Id") {
        put_member(&mut v, "Id", text_value(n));
    }
    if all || is_listed(props, "LoadState") {
        put_member(&mut v, "LoadState", text_value(load_str(u.load)));
    }
    if all || is_listed(props, "ActiveState") {
        put_member(&mut v, "ActiveState", text_value(active_str(u.active)));
    }
    if all || is_listed(props, "SubState") {
        put_member(&mut v, "SubState", text_value(u.sub.as_str()));
    }
    if all || is_listed(props, "MainPID") {
        let pid: i64 = match u.main_pid {
            Some(p) => p as i64,
            None => 0,
        };
        put_member(&mut v, "MainPID", int_value(pid));
    }
    if all || is_listed(props, "Description") {
        let d = description(u);
        put_member(&mut v, "Description", text_value(d.as_str()));
    }
    if all || is_listed(props, "UnitFileState") {
        put_member(&mut v, "UnitFileState", text_value(state));
    }
    if all || is_listed(props, "ActiveEnterTimestamp") {
        let t = match epoch(u.active_enter) {
            Some(s) => dec(s),
            None => String::new(),
        };
        put_member(&mut v, "ActiveEnterTimestamp", text_value(t.as_str()));
    }
    proof {
        property_names_differ();
        let m = json_of(v)->Obj_0;
        let p = properties(n@, *u, state@, texts(props@));
        assert(m.dom() =~= p.dom());
        assert(m =~= p);
    }
    v
}

/// No two properties have the same name.
proof fn property_names_differ()
    ensures
        "Id"@.len() == 2,
        "LoadState"@.len() == 9,
        "ActiveState"@.len() == 11,
        "SubState"@.len() == 8,
        "MainPID"@.len() == 7,
        "Description"@.len() == 11,
        "UnitFileState"@.len() == 13,
        "ActiveEnterTimestamp"@.len() == 20,
        "ActiveState"@ != "Description"@,
{
    reveal_strlit("Id");
    reveal_strlit("LoadState");
    reveal_strlit("ActiveState");
    reveal_strlit("SubState");
    reveal_strlit("MainPID");
    reveal_strlit("Description");
    reveal_strlit("UnitFileState");
    reveal_strlit("ActiveEnterTimestamp");
    assert("ActiveState"@[0] == 'A');
    assert("Description"@[0] == 'D');
}

} // verus!
