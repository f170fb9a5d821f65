//! The data that control operations exchange, and their JSON form.

use vstd::prelude::*;

use crate::json::{
    array_value, as_list, as_text, empty_object, int_value, json_of, jsons_of, member, member_of,
    null_value, opt_text_json, opt_text_value, put_member, str_vec, strings_in, text_array,
    text_value, texts_value, unsigned_value, Json,
};
use crate::manager::ops::{active_str, active_text, query_list, Manager};
use crate::manager::state::Unit;
use crate::names::{normalize_unit, normalized};
use crate::order::{views, Named};
use crate::platform::signal::Signal;
use crate::text::{cat3, opt_text, owned, texts, Text};
use crate::unit::values::{sig_from_name, signal_of};

verus! {

/// The error of a control operation: a message for people.
#[derive(Debug, Clone, PartialEq, Eq)]
pub struct Error(pub String);

impl Error {
    pub fn message(&self) -> (r: &str)
        ensures
            r@ == self.0@,
    {
        self.0.as_str()
    }
}

/// Status of one unit.
#[derive(Debug, Clone, PartialEq, Eq)]
pub struct UnitStatus {
    pub name: String,
    pub description: String,
    pub load: String,
    pub active: String,
    pub sub: String,
    pub result: String,
    pub main_pid: Option<i32>,
    pub path: Option<String>,
    pub active_enter: Option<u64>,
    pub log: Vec<String>,
    pub enabled: String,
}

/// One row of `list-units`.
#[derive(Debug, Clone, PartialEq, Eq)]
pub struct UnitSummary {
    pub unit: String,
    pub loaded: String,
    pub active: String,
    pub sub: String,
    pub description: String,
}

/// One row of `list-timers`.
#[derive(Debug, Clone, PartialEq, Eq)]
pub struct TimerInfo {
    pub unit: String,
    pub activates: String,
    pub next: Option<u64>,
    pub next_left: Option<i64>,
    pub last: Option<u64>,
    pub last_passed: Option<i64>,
    pub spec_strings: Vec<String>,
}

/// One row of `list-unit-files`.
#[derive(Debug, Clone, PartialEq, Eq)]
pub struct UnitFileInfo {
    pub file: String,
    pub path: String,
    pub state: String,
}

/// One unit file of `cat`.
#[derive(Debug, Clone, PartialEq, Eq)]
pub struct CatEntry {
    pub unit: String,
    pub path: String,
    pub text: String,
}

/// The unit repository that a manager uses.
#[derive(Debug, Clone, PartialEq, Eq)]
pub struct RepoInfo {
    /// The root that takes changes.
    pub root: String,
    /// All roots, the primary one first.
    pub roots: Vec<String>,
}

/// One line of the journal.
#[derive(Debug, Clone, PartialEq, Eq)]
pub struct JournalRecord {
    pub secs: u64,
    pub unit: String,
    pub text: String,
}

// ---- as specifications see them -------------------------------------------------

#[verifier::ext_equal]
pub ghost struct Status {
    pub name: Text,
    pub description: Text,
    pub load: Text,
    pub active: Text,
    pub sub: Text,
    pub result: Text,
    pub main_pid: Option<i32>,
    pub path: Option<Text>,
    pub active_enter: Option<u64>,
    pub log: Seq<Text>,
    pub enabled: Text,
}

impl View for UnitStatus {
    type V = Status;

    open spec fn view(&self) -> Status {
        Status {
            name: self.name@,
            description: self.description@,
            load: self.load@,
            active: self.active@,
            sub: self.sub@,
            result: self.result@,
            main_pid: self.main_pid,
            path: opt_text(self.path),
            active_enter: self.active_enter,
            log: texts(self.log@),
            enabled: self.enabled@,
        }
    }
}

#[verifier::ext_equal]
pub ghost struct Summary {
    pub unit: Text,
    pub loaded: Text,
    pub active: Text,
    pub sub: Text,
    pub description: Text,
}

impl View for UnitSummary {
    type V = Summary;

    open spec fn view(&self) -> Summary {
        Summary {
            unit: self.unit@,
            loaded: self.loaded@,
            active: self.active@,
            sub: self.sub@,
            description: self.description@,
        }
    }
}

#[verifier::ext_equal]
pub ghost struct Timer {
    pub unit: Text,
    pub activates: Text,
    pub next: Option<u64>,
    pub next_left: Option<i64>,
    pub last: Option<u64>,
    pub last_passed: Option<i64>,
    pub spec_strings: Seq<Text>,
}

impl View for TimerInfo {
    type V = Timer;

    open spec fn view(&self) -> Timer {
        Timer {
            unit: self.unit@,
            activates: self.activates@,
            next: self.next,
            next_left: self.next_left,
            last: self.last,
            last_passed: self.last_passed,
            spec_strings: texts(self.spec_strings@),
        }
    }
}

#[verifier::ext_equal]
pub ghost struct FileInfo {
    pub file: Text,
    pub path: Text,
    pub state: Text,
}

impl View for UnitFileInfo {
    type V = FileInfo;

    open spec fn view(&self) -> FileInfo {
        FileInfo { file: self.file@, path: self.path@, state: self.state@ }
    }
}

impl Named for UnitFileInfo {
    open spec fn label(v: FileInfo) -> Text {
        v.file
    }

    fn name_of(&self) -> (r: &str) {
        self.file.as_str()
    }
}

#[verifier::ext_equal]
pub ghost struct Cat {
    pub unit: Text,
    pub path: Text,
    pub text: Text,
}

impl View for CatEntry {
    type V = Cat;

    open spec fn view(&self) -> Cat {
        Cat { unit: self.unit@, path: self.path@, text: self.text@ }
    }
}

#[verifier::ext_equal]
pub ghost struct Record {
    pub secs: nat,
    pub unit: Text,
    pub text: Text,
}

impl View for JournalRecord {
    type V = Record;

    open spec fn view(&self) -> Record {
        Record { secs: self.secs as nat, unit: self.unit@, text: self.text@ }
    }
}

#[verifier::ext_equal]
pub ghost struct Place {
    pub root: Text,
    pub roots: Seq<Text>,
}

impl View for RepoInfo {
    type V = Place;

    open spec fn view(&self) -> Place {
        Place { root: self.root@, roots: texts(self.roots@) }
    }
}

// ---- JSON -----------------------------------------------------------------------

pub open spec fn opt_int_json(n: Option<int>) -> Json {
    match n {
        Some(x) => Json::Int(x),
        None => Json::Null,
    }
}

pub open spec fn opt_signed(n: Option<i64>) -> Option<int> {
    match n {
        Some(x) => Some(x as int),
        None => None,
    }
}

pub open spec fn opt_unsigned(n: Option<u64>) -> Option<int> {
    match n {
        Some(x) => Some(x as int),
        None => None,
    }
}

pub open spec fn opt_pid(n: Option<i32>) -> Option<int> {
    match n {
        Some(x) => Some(x as int),
        None => None,
    }
}

fn opt_unsigned_value(n: Option<u64>) -> (r: serde_json::Value)
    ensures
        json_of(r) == opt_int_json(opt_unsigned(n)),
{
    match n {
        Some(x) => unsigned_value(x),
        None => null_value(),
    }
}

fn opt_signed_value(n: Option<i64>) -> (r: serde_json::Value)
    ensures
        json_of(r) == opt_int_json(opt_signed(n)),
{
    match n {
        Some(x) => int_value(x),
        None => null_value(),
    }
}

fn opt_pid_value(n: Option<i32>) -> (r: serde_json::Value)
    ensures
        json_of(r) == opt_int_json(opt_pid(n)),
{
    match n {
        Some(x) => int_value(x as i64),
        None => null_value(),
    }
}

/// A unit's status.
pub open spec fn status_json(s: Status) -> Json {
    Json::Obj(
        Map::<Text, Json>::empty()
            .insert("name"@, Json::Str(s.name))
            .insert("description"@, Json::Str(s.description))
            .insert("load"@, Json::Str(s.load))
            .insert("active"@, Json::Str(s.active))
            .insert("sub"@, Json::Str(s.sub))
            .insert("result"@, Json::Str(s.result))
            .insert("main_pid"@, opt_int_json(opt_pid(s.main_pid)))
            .insert("path"@, opt_text_json(s.path))
            .insert("active_enter"@, opt_int_json(opt_unsigned(s.active_enter)))
            .insert("log"@, text_array(s.log))
            .insert("enabled"@, Json::Str(s.enabled)),
    )
}

/// A unit's status.
pub fn status_value(s: &UnitStatus) -> (r: serde_json::Value)
    ensures
        json_of(r) == status_json(s@),
{
    let mut v = empty_object();
    put_member(&mut v, "name", text_value(s.name.as_str()));
    put_member(&mut v, "description", text_value(s.description.as_str()));
    put_member(&mut v, "load", text_value(s.load.as_str()));
    put_member(&mut v, "active", text_value(s.active.as_str()));
    put_member(&mut v, "sub", text_value(s.sub.as_str()));
    put_member(&mut v, "result", text_value(s.result.as_str()));
    put_member(&mut v, "main_pid", opt_pid_value(s.main_pid));
    put_member(&mut v, "path", opt_text_value(&s.path));
    put_member(&mut v, "active_enter", opt_unsigned_value(s.active_enter));
    put_member(&mut v, "log", texts_value(&s.log));
    put_member(&mut v, "enabled", text_value(s.enabled.as_str()));
    v
}

/// A row of `list-units`.
pub open spec fn summary_json(s: Summary) -> Json {
    Json::Obj(
        Map::<Text, Json>::empty()
            .insert("unit"@, Json::Str(s.unit))
            .insert("loaded"@, Json::Str(s.loaded))
            .insert("active"@, Json::Str(s.active))
            .insert("sub"@, Json::Str(s.sub))
            .insert("description"@, Json::Str(s.description)),
    )
}

/// A row of `list-units`.
pub fn summary_value(s: &UnitSummary) -> (r: serde_json::Value)
    ensures
        json_of(r) == summary_json(s@),
{
    let mut v = empty_object();
    put_member(&mut v, "unit", text_value(s.unit.as_str()));
    put_member(&mut v, "loaded", text_value(s.loaded.as_str()));
    put_member(&mut v, "active", text_value(s.active.as_str()));
    put_member(&mut v, "sub", text_value(s.sub.as_str()));
    put_member(&mut v, "description", text_value(s.description.as_str()));
    v
}

/// A row of `list-timers`.
pub open spec fn timer_json(s: Timer) -> Json {
    Json::Obj(
        Map::<Text, Json>::empty()
            .insert("unit"@, Json::Str(s.unit))
            .insert("activates"@, Json::Str(s.activates))
            .insert("next"@, opt_int_json(opt_unsigned(s.next)))
            .insert("next_left"@, opt_int_json(opt_signed(s.next_left)))
            .insert("last"@, opt_int_json(opt_unsigned(s.last)))
            .insert("last_passed"@, opt_int_json(opt_signed(s.last_passed)))
            .insert("spec"@, text_array(s.spec_strings)),
    )
}

/// A row of `list-timers`.
pub fn timer_value(s: &TimerInfo) -> (r: serde_json::Value)
    ensures
        json_of(r) == timer_json(s@),
{
    let mut v = empty_object();
    put_member(&mut v, "unit", text_value(s.unit.as_str()));
    put_member(&mut v, "activates", text_value(s.activates.as_str()));
    put_member(&mut v, "next", opt_unsigned_value(s.next));
    put_member(&mut v, "next_left", opt_signed_value(s.next_left));
    put_member(&mut v, "last", opt_unsigned_value(s.last));
    put_member(&mut v, "last_passed", opt_signed_value(s.last_passed));
    put_member(&mut v, "spec", texts_value(&s.spec_strings));
    v
}

/// A row of `list-unit-files`.
pub open spec fn file_json(s: FileInfo) -> Json {
    Json::Obj(
        Map::<Text, Json>::empty()
            .insert("file"@, Json::Str(s.file))
            .insert("path"@, Json::Str(s.path))
            .insert("state"@, Json::Str(s.state)),
    )
}

/// A row of `list-unit-files`.
pub fn file_value(s: &UnitFileInfo) -> (r: serde_json::Value)
    ensures
        json_of(r) == file_json(s@),
{
    let mut v = empty_object();
    put_member(&mut v, "file", text_value(s.file.as_str()));
    put_member(&mut v, "path", text_value(s.path.as_str()));
    put_member(&mut v, "state", text_value(s.state.as_str()));
    v
}

/// A unit file of `cat`.
pub open spec fn cat_json(s: Cat) -> Json {
    Json::Obj(
        Map::<Text, Json>::empty()
            .insert("unit"@, Json::Str(s.unit))
            .insert("path"@, Json::Str(s.path))
            .insert("text"@, Json::Str(s.text)),
    )
}

/// A unit file of `cat`.
pub fn cat_value(s: &CatEntry) -> (r: serde_json::Value)
    ensures
        json_of(r) == cat_json(s@),
{
    let mut v = empty_object();
    put_member(&mut v, "unit", text_value(s.unit.as_str()));
    put_member(&mut v, "path", text_value(s.path.as_str()));
    put_member(&mut v, "text", text_value(s.text.as_str()));
    v
}

/// The repository.
pub open spec fn repo_json(s: Place) -> Json {
    Json::Obj(
        Map::<Text, Json>::empty()
            .insert("root"@, Json::Str(s.root))
            .insert("roots"@, text_array(s.roots)),
    )
}

/// The repository.
pub fn repo_value(s: &RepoInfo) -> (r: serde_json::Value)
    ensures
        json_of(r) == repo_json(s@),
{
    let mut v = empty_object();
    put_member(&mut v, "root", text_value(s.root.as_str()));
    put_member(&mut v, "roots", texts_value(&s.roots));
    v
}

/// A line of the journal.
pub open spec fn record_json(s: Record) -> Json {
    Json::Obj(
        Map::<Text, Json>::empty()
            .insert("secs"@, Json::Int(s.secs as int))
            .insert("unit"@, Json::Str(s.unit))
            .insert("text"@, Json::Str(s.text)),
    )
}

/// A line of the journal.
pub fn record_value(s: &JournalRecord) -> (r: serde_json::Value)
    ensures
        json_of(r) == record_json(s@),
{
    let mut v = empty_object();
    put_member(&mut v, "secs", unsigned_value(s.secs));
    put_member(&mut v, "unit", text_value(s.unit.as_str()));
    put_member(&mut v, "text", text_value(s.text.as_str()));
    v
}

/// The statuses of several units.
pub open spec fn statuses_json(v: Seq<Status>) -> Json {
    Json::Arr(Seq::new(v.len(), |i: int| status_json(v[i])))
}

/// The statuses of several units.
pub fn statuses_value(v: &Vec<UnitStatus>) -> (r: serde_json::Value)
    ensures
        json_of(r) == statuses_json(views(v@)),
{
    let mut out: Vec<serde_json::Value> = Vec::new();
    let mut i: usize = 0;
    while i < v.len()
        invariant
            i <= v.len(),
            out.len() == i,
            forall|j: int| 0 <= j < i ==> json_of(#[trigger] out@[j]) == status_json(v@[j]@),
        decreases v.len() - i,
    {
        out.push(status_value(&v[i]));
        i = i + 1;
    }
    assert(jsons_of(out@) =~= Seq::new(views(v@).len(), |i: int| status_json(views(v@)[i])));
    array_value(out)
}

/// The rows of `list-units`.
pub open spec fn summaries_json(v: Seq<Summary>) -> Json {
    Json::Arr(Seq::new(v.len(), |i: int| summary_json(v[i])))
}

/// The rows of `list-units`.
pub fn summaries_value(v: &Vec<UnitSummary>) -> (r: serde_json::Value)
    ensures
        json_of(r) == summaries_json(views(v@)),
{
    let mut out: Vec<serde_json::Value> = Vec::new();
    let mut i: usize = 0;
    while i < v.len()
        invariant
            i <= v.len(),
            out.len() == i,
            forall|j: int| 0 <= j < i ==> json_of(#[trigger] out@[j]) == summary_json(v@[j]@),
        decreases v.len() - i,
    {
        out.push(summary_value(&v[i]));
        i = i + 1;
    }
    assert(jsons_of(out@) =~= Seq::new(views(v@).len(), |i: int| summary_json(views(v@)[i])));
    array_value(out)
}

/// The rows of `list-timers`.
pub open spec fn timers_json(v: Seq<Timer>) -> Json {
    Json::Arr(Seq::new(v.len(), |i: int| timer_json(v[i])))
}

/// The rows of `list-timers`.
pub fn timers_value(v: &Vec<TimerInfo>) -> (r: serde_json::Value)
    ensures
        json_of(r) == timers_json(views(v@)),
{
    let mut out: Vec<serde_json::Value> = Vec::new();
    let mut i: usize = 0;
    while i < v.len()
        invariant
            i <= v.len(),
            out.len() == i,
            forall|j: int| 0 <= j < i ==> json_of(#[trigger] out@[j]) == timer_json(v@[j]@),
        decreases v.len() - i,
    {
        out.push(timer_value(&v[i]));
        i = i + 1;
    }
    assert(jsons_of(out@) =~= Seq::new(views(v@).len(), |i: int| timer_json(views(v@)[i])));
    array_value(out)
}

/// The rows of `list-unit-files`.
pub open spec fn files_json(v: Seq<FileInfo>) -> Json {
    Json::Arr(Seq::new(v.len(), |i: int| file_json(v[i])))
}

/// The rows of `list-unit-files`.
pub fn files_value(v: &Vec<UnitFileInfo>) -> (r: serde_json::Value)
    ensures
        json_of(r) == files_json(views(v@)),
{
    let mut out: Vec<serde_json::Value> = Vec::new();
    let mut i: usize = 0;
    while i < v.len()
        invariant
            i <= v.len(),
            out.len() == i,
            forall|j: int| 0 <= j < i ==> json_of(#[trigger] out@[j]) == file_json(v@[j]@),
        decreases v.len() - i,
    {
        out.push(file_value(&v[i]));
        i = i + 1;
    }
    assert(jsons_of(out@) =~= Seq::new(views(v@).len(), |i: int| file_json(views(v@)[i])));
    array_value(out)
}

/// The unit files of `cat`.
pub open spec fn cats_json(v: Seq<Cat>) -> Json {
    Json::Arr(Seq::new(v.len(), |i: int| cat_json(v[i])))
}

/// The unit files of `cat`.
pub fn cats_value(v: &Vec<CatEntry>) -> (r: serde_json::Value)
    ensures
        json_of(r) == cats_json(views(v@)),
{
    let mut out: Vec<serde_json::Value> = Vec::new();
    let mut i: usize = 0;
    while i < v.len()
        invariant
            i <= v.len(),
            out.len() == i,
            forall|j: int| 0 <= j < i ==> json_of(#[trigger] out@[j]) == cat_json(v@[j]@),
        decreases v.len() - i,
    {
        out.push(cat_value(&v[i]));
        i = i + 1;
    }
    assert(jsons_of(out@) =~= Seq::new(views(v@).len(), |i: int| cat_json(views(v@)[i])));
    array_value(out)
}

/// Lines of the journal.
pub open spec fn records_json(v: Seq<Record>) -> Json {
    Json::Arr(Seq::new(v.len(), |i: int| record_json(v[i])))
}

/// Lines of the journal.
pub fn records_value(v: &Vec<JournalRecord>) -> (r: serde_json::Value)
    ensures
        json_of(r) == records_json(views(v@)),
{
    let mut out: Vec<serde_json::Value> = Vec::new();
    let mut i: usize = 0;
    while i < v.len()
        invariant
            i <= v.len(),
            out.len() == i,
            forall|j: int| 0 <= j < i ==> json_of(#[trigger] out@[j]) == record_json(v@[j]@),
        decreases v.len() - i,
    {
        out.push(record_value(&v[i]));
        i = i + 1;
    }
    assert(jsons_of(out@) =~= Seq::new(views(v@).len(), |i: int| record_json(views(v@)[i])));
    array_value(out)
}

// ---- names ----------------------------------------------------------------------

/// The names, normalized.
pub open spec fn all_normalized(v: Seq<Text>) -> Seq<Text> {
    Seq::new(v.len(), |i: int| normalized(v[i]))
}

/// Normalize unit names.
pub fn normalize(units: &Vec<String>) -> (r: Vec<String>)
    ensures
        texts(r@) == all_normalized(texts(units@)),
{
    let mut out: Vec<String> = Vec::new();
    let mut i: usize = 0;
    while i < units.len()
        invariant
            i <= units.len(),
            out.len() == i,
            forall|j: int| 0 <= j < i ==> (#[trigger] out@[j])@ == normalized(units@[j]@),
        decreases units.len() - i,
    {
        out.push(normalize_unit(units[i].as_str()));
        i = i + 1;
    }
    assert(texts(out@) =~= all_normalized(texts(units@)));
    out
}

// ---- replies, as a client reads them --------------------------------------------

/// The second item of a pair, where it is a string.
pub open spec fn pair_state(j: Json) -> Option<Text> {
    match j {
        Json::Arr(p) => if p.len() > 1 {
            match p[1] {
                Json::Str(s) => Some(s),
                _ => None,
            }
        } else {
            None
        },
        _ => None,
    }
}

/// The states in a list of pairs of unit and state; what is no such pair is
/// left out.
pub open spec fn pair_states(a: Seq<Json>) -> Seq<Text>
    decreases a.len(),
{
    if a.len() == 0 {
        seq![]
    } else {
        match pair_state(a.last()) {
            Some(s) => pair_states(a.drop_last()).push(s),
            None => pair_states(a.drop_last()),
        }
    }
}

/// The states that a reply to `is_active` holds.
pub open spec fn states_in(j: Json) -> Seq<Text> {
    match member_of(j, "states"@) {
        Some(Json::Arr(a)) => pair_states(a),
        _ => seq![],
    }
}

/// The states that a reply to `is_active` holds.
pub fn active_states(v: &serde_json::Value) -> (r: Vec<String>)
    ensures
        texts(r@) == states_in(json_of(*v)),
{
    let mut out: Vec<String> = Vec::new();
    assert(texts(out@) =~= seq![]);
    let list = match member(v, "states") {
        None => {
            return out;
        },
        Some(m) => match as_list(m) {
            None => {
                return out;
            },
            Some(a) => a,
        },
    };
    let mut i: usize = 0;
    assert(jsons_of(list@).take(0) =~= seq![]);
    while i < list.len()
        invariant
            i <= list.len(),
            texts(out@) == pair_states(jsons_of(list@).take(i as int)),
        decreases list.len() - i,
    {
        let ghost upto = jsons_of(list@).take(i + 1);
        let ghost was = out@;
        proof {
            assert(upto.drop_last() =~= jsons_of(list@).take(i as int));
            assert(upto.last() == json_of(list@[i as int]));
        }
        match as_list(&list[i]) {
            None => {},
            Some(p) => {
                if p.len() > 1 {
                    assert(jsons_of(p@)[1] == json_of(p@[1]));
                    match as_text(&p[1]) {
                        Some(s) => {
                            out.push(owned(s));
                            assert(texts(out@) =~= texts(was).push(s@));
                        },
                        None => {},
                    }
                }
            },
        }
        i = i + 1;
    }
    assert(jsons_of(list@).take(list.len() as int) =~= jsons_of(list@));
    out
}

/// The messages that a reply to `enable` or `disable` holds.
pub fn messages(v: &serde_json::Value) -> (r: Vec<String>)
    ensures
        texts(r@) == (match strings_in(json_of(*v)) {
            Some(s) => s,
            None => seq![],
        }),
{
    match str_vec(v) {
        Some(s) => s,
        None => {
            let out: Vec<String> = Vec::new();
            assert(texts(out@) =~= seq![]);
            out
        },
    }
}

/// The messages that a reply has to hold; an error names the operation.
pub fn required_messages(v: &serde_json::Value, op: &str) -> (r: Result<Vec<String>, Error>)
    ensures
        match r {
            Ok(s) => strings_in(json_of(*v)) == Some(texts(s@)),
            Err(e) => strings_in(json_of(*v)) is None && e.0@ == "failed to parse "@ + op@
                + " result"@,
        },
{
    match str_vec(v) {
        Some(s) => Ok(s),
        None => Err(Error(crate::text::cat3("failed to parse ", op, " result"))),
    }
}

/// The target that a reply to `get_default` names.
pub fn default_target_in(v: &serde_json::Value) -> (r: String)
    ensures
        r@ == (match json_of(*v) {
            Json::Str(s) => s,
            _ => "default.target"@,
        }),
{
    match as_text(v) {
        Some(s) => owned(s),
        None => owned("default.target"),
    }
}

// ---- control in one process -----------------------------------------------------

/// The state of a unit as it is shown; `unknown` for a name that is no unit's.
pub open spec fn known_state(units: Map<Text, Unit>, n: Text) -> Text {
    if units.contains_key(n) {
        active_text(units[n].active)
    } else {
        "unknown"@
    }
}

/// The states of units.
pub fn is_active(mgr: &Manager, units: &Vec<String>) -> (r: Vec<String>)
    ensures
        texts(r@) == Seq::new(
            units.len() as nat,
            |i: int| known_state(mgr.units@, normalized(units[i]@)),
        ),
{
    let mut out: Vec<String> = Vec::new();
    let mut i: usize = 0;
    while i < units.len()
        invariant
            i <= units.len(),
            out.len() == i,
            forall|j: int|
                0 <= j < i ==> (#[trigger] out@[j])@ == known_state(
                    mgr.units@,
                    normalized(units@[j]@),
                ),
        decreases units.len() - i,
    {
        let name = normalize_unit(units[i].as_str());
        match mgr.units.get(name.as_str()) {
            Some(u) => out.push(owned(active_str(u.active))),
            None => out.push(owned("unknown")),
        }
        i = i + 1;
    }
    assert(texts(out@) =~= Seq::new(
        units.len() as nat,
        |i: int| known_state(mgr.units@, normalized(units[i]@)),
    ));
    out
}

/// The names that a query is about: those given, normalized, or all units in
/// order.
pub fn query_names(mgr: &Manager, units: &Vec<String>) -> (r: Vec<String>)
    ensures
        texts(r@) == query_list(mgr.units@, all_normalized(texts(units@))),
{
    let names = normalize(units);
    mgr.query_names(&names)
}

/// The signal to kill with.
pub fn kill_signal(signal: &str) -> (r: Result<Signal, Error>)
    ensures
        match r {
            Ok(s) => signal_of(signal@) == Some(s.raw()),
            Err(e) => signal_of(signal@) is None && e.0@ == "unknown signal `"@ + signal@ + "`"@,
        },
{
    match sig_from_name(signal) {
        Some(s) => Ok(s),
        None => Err(Error(cat3("unknown signal `", signal, "`"))),
    }
}

// ---- laws -----------------------------------------------------------------------

/// Each field of a status is sent under its own name, and a missing one as null.
pub proof fn status_is_sent_field_by_field(s: UnitStatus)
    ensures
        member_of(status_json(s@), "name"@) == Some(Json::Str(s.name@)),
        member_of(status_json(s@), "description"@) == Some(Json::Str(s.description@)),
        member_of(status_json(s@), "load"@) == Some(Json::Str(s.load@)),
        member_of(status_json(s@), "active"@) == Some(Json::Str(s.active@)),
        member_of(status_json(s@), "sub"@) == Some(Json::Str(s.sub@)),
        member_of(status_json(s@), "result"@) == Some(Json::Str(s.result@)),
        member_of(status_json(s@), "enabled"@) == Some(Json::Str(s.enabled@)),
        s.main_pid is Some ==> member_of(status_json(s@), "main_pid"@) == Some(
            Json::Int(s.main_pid->0 as int),
        ),
        s.main_pid is None ==> member_of(status_json(s@), "main_pid"@) == Some(
            Json::Null,
        ),
        s.path is Some ==> member_of(status_json(s@), "path"@) == Some(
            Json::Str(s.path->0@),
        ),
        s.path is None ==> member_of(status_json(s@), "path"@) == Some(
            Json::Null,
        ),
        s.active_enter is Some ==> member_of(status_json(s@), "active_enter"@) == Some(
            Json::Int(s.active_enter->0 as int),
        ),
        s.active_enter is None ==> member_of(status_json(s@), "active_enter"@) == Some(
            Json::Null,
        ),
        member_of(status_json(s@), "log"@) == Some(text_array(texts(s.log@))),
{
    reveal_strlit("name");
    reveal_strlit("description");
    reveal_strlit("load");
    reveal_strlit("active");
    reveal_strlit("sub");
    reveal_strlit("result");
    reveal_strlit("enabled");
    reveal_strlit("main_pid");
    reveal_strlit("path");
    reveal_strlit("active_enter");
    reveal_strlit("log");
    assert("name"@.len() == 4 && "name"@[0] == 'n' && "name"@[1] == 'a' && "name"@[2] == 'm' && "name"@[3] == 'e');
    assert("description"@.len() == 11 && "description"@[0] == 'd' && "description"@[1] == 'e' && "description"@[2] == 's' && "description"@[3] == 'c' && "description"@[4] == 'r' && "description"@[5] == 'i');
    assert("load"@.len() == 4 && "load"@[0] == 'l' && "load"@[1] == 'o' && "load"@[2] == 'a' && "load"@[3] == 'd');
    assert("active"@.len() == 6 && "active"@[0] == 'a' && "active"@[1] == 'c' && "active"@[2] == 't' && "active"@[3] == 'i' && "active"@[4] == 'v' && "active"@[5] == 'e');
    assert("sub"@.len() == 3 && "sub"@[0] == 's' && "sub"@[1] == 'u' && "sub"@[2] == 'b');
    assert("result"@.len() == 6 && "result"@[0] == 'r' && "result"@[1] == 'e' && "result"@[2] == 's' && "result"@[3] == 'u' && "result"@[4] == 'l' && "result"@[5] == 't');
    assert("enabled"@.len() == 7 && "enabled"@[0] == 'e' && "enabled"@[1] == 'n' && "enabled"@[2] == 'a' && "enabled"@[3] == 'b' && "enabled"@[4] == 'l' && "enabled"@[5] == 'e');
    assert("main_pid"@.len() == 8 && "main_pid"@[0] == 'm' && "main_pid"@[1] == 'a' && "main_pid"@[2] == 'i' && "main_pid"@[3] == 'n' && "main_pid"@[4] == '_' && "main_pid"@[5] == 'p');
    assert("path"@.len() == 4 && "path"@[0] == 'p' && "path"@[1] == 'a' && "path"@[2] == 't' && "path"@[3] == 'h');
    assert("active_enter"@.len() == 12 && "active_enter"@[0] == 'a' && "active_enter"@[1] == 'c' && "active_enter"@[2] == 't' && "active_enter"@[3] == 'i' && "active_enter"@[4] == 'v' && "active_enter"@[5] == 'e');
    assert("log"@.len() == 3 && "log"@[0] == 'l' && "log"@[1] == 'o' && "log"@[2] == 'g');
}

/// So is each column of `list-units`.
pub proof fn summary_is_sent_field_by_field(s: UnitSummary)
    ensures
        member_of(summary_json(s@), "unit"@) == Some(Json::Str(s.unit@)),
        member_of(summary_json(s@), "loaded"@) == Some(Json::Str(s.loaded@)),
        member_of(summary_json(s@), "active"@) == Some(Json::Str(s.active@)),
        member_of(summary_json(s@), "sub"@) == Some(Json::Str(s.sub@)),
        member_of(summary_json(s@), "description"@) == Some(Json::Str(s.description@)),
{
    reveal_strlit("unit");
    reveal_strlit("loaded");
    reveal_strlit("active");
    reveal_strlit("sub");
    reveal_strlit("description");
    assert("unit"@.len() == 4 && "unit"@[0] == 'u' && "unit"@[1] == 'n' && "unit"@[2] == 'i' && "unit"@[3] == 't');
    assert("loaded"@.len() == 6 && "loaded"@[0] == 'l' && "loaded"@[1] == 'o' && "loaded"@[2] == 'a' && "loaded"@[3] == 'd' && "loaded"@[4] == 'e' && "loaded"@[5] == 'd');
    assert("active"@.len() == 6 && "active"@[0] == 'a' && "active"@[1] == 'c' && "active"@[2] == 't' && "active"@[3] == 'i' && "active"@[4] == 'v' && "active"@[5] == 'e');
    assert("sub"@.len() == 3 && "sub"@[0] == 's' && "sub"@[1] == 'u' && "sub"@[2] == 'b');
    assert("description"@.len() == 11 && "description"@[0] == 'd' && "description"@[1] == 'e' && "description"@[2] == 's' && "description"@[3] == 'c' && "description"@[4] == 'r' && "description"@[5] == 'i');
}

/// So is each column of `list-timers`.
pub proof fn timer_is_sent_field_by_field(s: TimerInfo)
    ensures
        member_of(timer_json(s@), "unit"@) == Some(Json::Str(s.unit@)),
        member_of(timer_json(s@), "activates"@) == Some(Json::Str(s.activates@)),
        s.next is Some ==> member_of(timer_json(s@), "next"@) == Some(
            Json::Int(s.next->0 as int),
        ),
        s.next is None ==> member_of(timer_json(s@), "next"@) == Some(
            Json::Null,
        ),
        s.next_left is Some ==> member_of(timer_json(s@), "next_left"@) == Some(
            Json::Int(s.next_left->0 as int),
        ),
        s.next_left is None ==> member_of(timer_json(s@), "next_left"@) == Some(
            Json::Null,
        ),
        s.last is Some ==> member_of(timer_json(s@), "last"@) == Some(
            Json::Int(s.last->0 as int),
        ),
        s.last is None ==> member_of(timer_json(s@), "last"@) == Some(
            Json::Null,
        ),
        s.last_passed is Some ==> member_of(timer_json(s@), "last_passed"@) == Some(
            Json::Int(s.last_passed->0 as int),
        ),
        s.last_passed is None ==> member_of(timer_json(s@), "last_passed"@) == Some(
            Json::Null,
        ),
        member_of(timer_json(s@), "spec"@) == Some(text_array(texts(s.spec_strings@))),
{
    reveal_strlit("unit");
    reveal_strlit("activates");
    reveal_strlit("next");
    reveal_strlit("next_left");
    reveal_strlit("last");
    reveal_strlit("last_passed");
    reveal_strlit("spec");
    assert("unit"@.len() == 4 && "unit"@[0] == 'u' && "unit"@[1] == 'n' && "unit"@[2] == 'i' && "unit"@[3] == 't');
    assert("activates"@.len() == 9 && "activates"@[0] == 'a' && "activates"@[1] == 'c' && "activates"@[2] == 't' && "activates"@[3] == 'i' && "activates"@[4] == 'v' && "activates"@[5] == 'a');
    assert("next"@.len() == 4 && "next"@[0] == 'n' && "next"@[1] == 'e' && "next"@[2] == 'x' && "next"@[3] == 't');
    assert("next_left"@.len() == 9 && "next_left"@[0] == 'n' && "next_left"@[1] == 'e' && "next_left"@[2] == 'x' && "next_left"@[3] == 't' && "next_left"@[4] == '_' && "next_left"@[5] == 'l');
    assert("last"@.len() == 4 && "last"@[0] == 'l' && "last"@[1] == 'a' && "last"@[2] == 's' && "last"@[3] == 't');
    assert("last_passed"@.len() == 11 && "last_passed"@[0] == 'l' && "last_passed"@[1] == 'a' && "last_passed"@[2] == 's' && "last_passed"@[3] == 't' && "last_passed"@[4] == '_' && "last_passed"@[5] == 'p');
    assert("spec"@.len() == 4 && "spec"@[0] == 's' && "spec"@[1] == 'p' && "spec"@[2] == 'e' && "spec"@[3] == 'c');
}

/// So is each column of `list-unit-files`.
pub proof fn unit_file_is_sent_field_by_field(s: UnitFileInfo)
    ensures
        member_of(file_json(s@), "file"@) == Some(Json::Str(s.file@)),
        member_of(file_json(s@), "path"@) == Some(Json::Str(s.path@)),
        member_of(file_json(s@), "state"@) == Some(Json::Str(s.state@)),
{
    reveal_strlit("file");
    reveal_strlit("path");
    reveal_strlit("state");
    assert("file"@.len() == 4 && "file"@[0] == 'f' && "file"@[1] == 'i' && "file"@[2] == 'l' && "file"@[3] == 'e');
    assert("path"@.len() == 4 && "path"@[0] == 'p' && "path"@[1] == 'a' && "path"@[2] == 't' && "path"@[3] == 'h');
    assert("state"@.len() == 5 && "state"@[0] == 's' && "state"@[1] == 't' && "state"@[2] == 'a' && "state"@[3] == 't' && "state"@[4] == 'e');
}

/// So is what `cat` shows.
pub proof fn cat_is_sent_field_by_field(s: CatEntry)
    ensures
        member_of(cat_json(s@), "unit"@) == Some(Json::Str(s.unit@)),
        member_of(cat_json(s@), "path"@) == Some(Json::Str(s.path@)),
        member_of(cat_json(s@), "text"@) == Some(Json::Str(s.text@)),
{
    reveal_strlit("unit");
    reveal_strlit("path");
    reveal_strlit("text");
    assert("unit"@.len() == 4 && "unit"@[0] == 'u' && "unit"@[1] == 'n' && "unit"@[2] == 'i' && "unit"@[3] == 't');
    assert("path"@.len() == 4 && "path"@[0] == 'p' && "path"@[1] == 'a' && "path"@[2] == 't' && "path"@[3] == 'h');
    assert("text"@.len() == 4 && "text"@[0] == 't' && "text"@[1] == 'e' && "text"@[2] == 'x' && "text"@[3] == 't');
}

/// So is where the repository lies.
pub proof fn repository_is_sent_field_by_field(s: RepoInfo)
    ensures
        member_of(repo_json(s@), "root"@) == Some(Json::Str(s.root@)),
        member_of(repo_json(s@), "roots"@) == Some(text_array(texts(s.roots@))),
{
    reveal_strlit("root");
    reveal_strlit("roots");
    assert("root"@.len() == 4 && "root"@[0] == 'r' && "root"@[1] == 'o' && "root"@[2] == 'o' && "root"@[3] == 't');
    assert("roots"@.len() == 5 && "roots"@[0] == 'r' && "roots"@[1] == 'o' && "roots"@[2] == 'o' && "roots"@[3] == 't' && "roots"@[4] == 's');
}

/// So is a line of the journal.
pub proof fn record_is_sent_field_by_field(s: JournalRecord)
    ensures
        member_of(record_json(s@), "secs"@) == Some(Json::Int(s.secs as int)),
        member_of(record_json(s@), "unit"@) == Some(Json::Str(s.unit@)),
        member_of(record_json(s@), "text"@) == Some(Json::Str(s.text@)),
{
    reveal_strlit("secs");
    reveal_strlit("unit");
    reveal_strlit("text");
    assert("secs"@.len() == 4 && "secs"@[0] == 's' && "secs"@[1] == 'e' && "secs"@[2] == 'c' && "secs"@[3] == 's');
    assert("unit"@.len() == 4 && "unit"@[0] == 'u' && "unit"@[1] == 'n' && "unit"@[2] == 'i' && "unit"@[3] == 't');
    assert("text"@.len() == 4 && "text"@[0] == 't' && "text"@[1] == 'e' && "text"@[2] == 'x' && "text"@[3] == 't');
}

/// A list is sent item by item, in order.
pub proof fn lists_are_sent_in_order(
    a: Seq<Status>,
    b: Seq<Summary>,
    c: Seq<Timer>,
    d: Seq<FileInfo>,
    e: Seq<Cat>,
    f: Seq<Record>,
    i: int,
)
    ensures
        statuses_json(a) is Arr && statuses_json(a)->Arr_0.len() == a.len(),
        0 <= i < a.len() ==> statuses_json(a)->Arr_0[i] == status_json(a[i]),
        summaries_json(b) is Arr && summaries_json(b)->Arr_0.len() == b.len(),
        0 <= i < b.len() ==> summaries_json(b)->Arr_0[i] == summary_json(b[i]),
        timers_json(c) is Arr && timers_json(c)->Arr_0.len() == c.len(),
        0 <= i < c.len() ==> timers_json(c)->Arr_0[i] == timer_json(c[i]),
        files_json(d) is Arr && files_json(d)->Arr_0.len() == d.len(),
        0 <= i < d.len() ==> files_json(d)->Arr_0[i] == file_json(d[i]),
        cats_json(e) is Arr && cats_json(e)->Arr_0.len() == e.len(),
        0 <= i < e.len() ==> cats_json(e)->Arr_0[i] == cat_json(e[i]),
        records_json(f) is Arr && records_json(f)->Arr_0.len() == f.len(),
        0 <= i < f.len() ==> records_json(f)->Arr_0[i] == record_json(f[i]),
{
}

/// The state of a name that is no unit's is `unknown`, and that of a unit is never.
pub proof fn unknown_names_are_told_apart(units: Map<Text, Unit>, n: Text)
    ensures
        known_state(units, n) == "unknown"@ <==> !units.contains_key(n),
        units.contains_key(n) ==> known_state(units, n) == active_text(units[n].active),
{
    reveal_strlit("unknown");
    reveal_strlit("inactive");
    reveal_strlit("activating");
    reveal_strlit("active");
    reveal_strlit("deactivating");
    reveal_strlit("failed");
    assert("unknown"@.len() == 7 && "unknown"@[0] == 'u' && "unknown"@[1] == 'n' && "unknown"@[2] == 'k' && "unknown"@[3] == 'n');
    assert("inactive"@.len() == 8 && "inactive"@[0] == 'i' && "inactive"@[1] == 'n' && "inactive"@[2] == 'a' && "inactive"@[3] == 'c');
    assert("activating"@.len() == 10 && "activating"@[0] == 'a' && "activating"@[1] == 'c' && "activating"@[2] == 't' && "activating"@[3] == 'i');
    assert("active"@.len() == 6 && "active"@[0] == 'a' && "active"@[1] == 'c' && "active"@[2] == 't' && "active"@[3] == 'i');
    assert("deactivating"@.len() == 12 && "deactivating"@[0] == 'd' && "deactivating"@[1] == 'e' && "deactivating"@[2] == 'a' && "deactivating"@[3] == 'c');
    assert("failed"@.len() == 6 && "failed"@[0] == 'f' && "failed"@[1] == 'a' && "failed"@[2] == 'i' && "failed"@[3] == 'l');
}

/// The states of a reply are the second items of its pairs, in order.
pub proof fn states_are_read_from_pairs(a: Seq<Json>, unit: Json, state: Text, m: Map<Text, Json>)
    ensures
        pair_states(a.push(Json::Arr(seq![unit, Json::Str(state)]))) == pair_states(a).push(state),
        pair_states(seq![]).len() == 0,
        m.contains_key("states"@) && m["states"@] == Json::Arr(a) ==> states_in(Json::Obj(m))
            == pair_states(a),
        !m.contains_key("states"@) ==> states_in(Json::Obj(m)).len() == 0,
{
    let p = Json::Arr(seq![unit, Json::Str(state)]);
    assert(a.push(p).drop_last() =~= a);
    assert(seq![unit, Json::Str(state)][1] == Json::Str(state));
}

} // verus!
