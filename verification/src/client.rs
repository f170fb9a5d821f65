//! What clients ask of a manager: the requests that they send.

use vstd::prelude::*;

use crate::control::{all_normalized, normalize};
use crate::ipc::{
    asked, asked_by_line, bool_member, op_text, requested_units, string_list, string_member, units_op_of, Asked,
    UnitsOp,
};
use crate::json::{
    bool_value, clone_value, empty_object, is_line, json_of, line_of, member, member_names,
    member_of, opt_text_json, opt_text_value, parsed_json, printed_json, put_member,
    strings_in_text_array, text_array, text_value, texts_value, unsigned_value, within_depth, Json,
    MAX_DEPTH,
};
use crate::names::{normalize_unit, normalized, normalized_is_final};
use crate::text::{opt_text, texts, Text};
use crate::unit::values::signal_of;

verus! {

/// Where a client finds the manager.
#[derive(Debug, Clone, PartialEq, Eq)]
pub struct Client {
    pub user: bool,
    pub socket: String,
}

/// The request of an operation without arguments.
pub open spec fn simple_json(op: Text) -> Json {
    Json::Obj(Map::<Text, Json>::empty().insert("op"@, Json::Str(op)))
}

/// The request of an operation on units.
pub open spec fn units_json(op: Text, units: Seq<Text>) -> Json {
    Json::Obj(
        Map::<Text, Json>::empty().insert("op"@, Json::Str(op)).insert("units"@, text_array(units)),
    )
}

/// The request of an operation on a name.
pub open spec fn name_json(op: Text, name: Text) -> Json {
    Json::Obj(
        Map::<Text, Json>::empty().insert("op"@, Json::Str(op)).insert("name"@, Json::Str(name)),
    )
}

/// The members of an object; none of any other value.
pub open spec fn members_of(j: Json) -> Map<Text, Json> {
    match j {
        Json::Obj(m) => m,
        _ => Map::empty(),
    }
}

/// The request of an operation with the members of an object for arguments.
/// A member named `op` takes the operation's place.
pub open spec fn json_with(op: Text, extra: Json) -> Json {
    Json::Obj(
        Map::<Text, Json>::empty().insert("op"@, Json::Str(op)).union_prefer_right(
            members_of(extra),
        ),
    )
}

fn simple_request(op: &str) -> (r: serde_json::Value)
    ensures
        json_of(r) == simple_json(op@),
{
    let mut v = empty_object();
    put_member(&mut v, "op", text_value(op));
    v
}

fn units_request(op: &str, units: &Vec<String>) -> (r: serde_json::Value)
    ensures
        json_of(r) == units_json(op@, texts(units@)),
{
    let mut v = empty_object();
    put_member(&mut v, "op", text_value(op));
    put_member(&mut v, "units", texts_value(units));
    v
}

fn name_request(op: &str, name: &str) -> (r: serde_json::Value)
    ensures
        json_of(r) == name_json(op@, name@),
{
    let mut v = empty_object();
    put_member(&mut v, "op", text_value(op));
    put_member(&mut v, "name", text_value(name));
    v
}

impl Client {
    /// The request of an operation on units.
    pub fn units_op(&self, op: &str, units: &Vec<String>) -> (r: serde_json::Value)
        ensures
            json_of(r) == units_json(op@, texts(units@)),
    {
        units_request(op, units)
    }

    /// The request of an operation without arguments.
    pub fn simple_op(&self, op: &str) -> (r: serde_json::Value)
        ensures
            json_of(r) == simple_json(op@),
    {
        simple_request(op)
    }

    /// The request of an operation with the members of an object for arguments.
    pub fn op_with(&self, op: &str, extra: &serde_json::Value) -> (r: serde_json::Value)
        ensures
            json_of(r) == json_with(op@, json_of(*extra)),
    {
        let mut v = simple_request(op);
        let ghost base = Map::<Text, Json>::empty().insert("op"@, Json::Str(op@));
        match member_names(extra) {
            None => {
                assert(base.union_prefer_right(Map::<Text, Json>::empty()) =~= base);
            },
            Some(names) => {
                let ghost m = json_of(*extra)->Obj_0;
                let ghost all = texts(names@);
                let mut i: usize = 0;
                assert(base =~= base.union_prefer_right(m.restrict(all.take(0).to_set())));
                while i < names.len()
                    invariant
                        i <= names.len(),
                        all == texts(names@),
                        json_of(*extra) == Json::Obj(m),
                        forall|k: Text| #[trigger] all.contains(k) <==> m.contains_key(k),
                        json_of(v) == Json::Obj(
                            base.union_prefer_right(m.restrict(all.take(i as int).to_set())),
                        ),
                    decreases names.len() - i,
                {
                    let key = names[i].as_str();
                    proof {
                        assert(all[i as int] == key@);
                        assert(all.contains(key@));
                    }
                    match member(extra, key) {
                        Some(x) => {
                            put_member(&mut v, key, clone_value(x));
                        },
                        None => {},
                    }
                    proof {
                        let a = base.union_prefer_right(m.restrict(all.take(i as int).to_set()));
                        let b = base.union_prefer_right(m.restrict(all.take(i + 1).to_set()));
                        assert forall|k: Text|
                            #[trigger] all.take(i + 1).to_set().contains(k) <==> (all.take(
                                i as int,
                            ).to_set().contains(k) || k == key@) by {
                            let s = all.take(i as int);
                            let t = all.take(i + 1);
                            assert(t =~= s.push(key@));
                            if s.contains(k) {
                                let j = s.index_of(k);
                                assert(t[j] == k);
                            }
                            if k == key@ {
                                assert(t[i as int] == k);
                            }
                            if t.contains(k) && k != key@ {
                                let j = t.index_of(k);
                                assert(s[j] == k);
                            }
                        }
                        let done = all.take(i as int).to_set();
                        assert(all.take(i + 1).to_set() =~= done.insert(key@));
                        assert(m.restrict(done.insert(key@)) =~= m.restrict(done).insert(
                            key@,
                            m[key@],
                        ));
                        assert(b =~= a.insert(key@, m[key@]));
                    }
                    i = i + 1;
                }
                proof {
                    assert(all.take(names.len() as int) =~= all);
                    assert(m.restrict(all.to_set()) =~= m) by {
                        assert forall|k: Text| m.contains_key(k) implies all.to_set().contains(
                            k,
                        ) by {
                            assert(all.contains(k));
                        }
                    }
                }
            },
        }
        v
    }
}

/// What a client asks of the manager.
#[derive(Debug, Clone)]
pub enum Ask {
    Units { op: UnitsOp, units: Vec<String> },
    Kill { unit: String, signal: String },
    ListDependencies { unit: String, reverse: bool },
    ListUnits { types: Vec<String>, state: Option<String> },
    ListUnitFiles,
    ListTimers,
    DaemonReload,
    GetDefault,
    Repo,
    Journal { unit: Option<String>, since: Option<u64>, tail: Option<u64> },
    SetDefault { unit: String },
    Isolate { unit: String },
}

/// What a client asks, as specifications see it.
pub ghost enum Wish {
    Units(UnitsOp, Seq<Text>),
    Kill(Text, Text),
    ListDependencies(Text, bool),
    ListUnits(Seq<Text>, Option<Text>),
    ListUnitFiles,
    ListTimers,
    DaemonReload,
    GetDefault,
    Repo,
    Journal(Option<Text>, Option<u64>, Option<u64>),
    SetDefault(Text),
    Isolate(Text),
}

impl View for Ask {
    type V = Wish;

    open spec fn view(&self) -> Wish {
        match self {
            Ask::Units { op, units } => Wish::Units(*op, texts(units@)),
            Ask::Kill { unit, signal } => Wish::Kill(unit@, signal@),
            Ask::ListDependencies { unit, reverse } => Wish::ListDependencies(unit@, *reverse),
            Ask::ListUnits { types, state } => Wish::ListUnits(texts(types@), opt_text(*state)),
            Ask::ListUnitFiles => Wish::ListUnitFiles,
            Ask::ListTimers => Wish::ListTimers,
            Ask::DaemonReload => Wish::DaemonReload,
            Ask::GetDefault => Wish::GetDefault,
            Ask::Repo => Wish::Repo,
            Ask::Journal { unit, since, tail } => Wish::Journal(opt_text(*unit), *since, *tail),
            Ask::SetDefault { unit } => Wish::SetDefault(unit@),
            Ask::Isolate { unit } => Wish::Isolate(unit@),
        }
    }
}

/// The members of a journal request.
pub open spec fn journal_members(
    unit: Option<Text>,
    since: Option<u64>,
    tail: Option<u64>,
) -> Map<Text, Json> {
    let a = Map::<Text, Json>::empty().insert("op"@, Json::Str("journal"@));
    let b = match unit {
        Some(u) => a.insert("unit"@, Json::Str(u)),
        None => a,
    };
    let c = match since {
        Some(s) => b.insert("since"@, Json::Int(s as int)),
        None => b,
    };
    match tail {
        Some(t) => c.insert("tail"@, Json::Int(t as int)),
        None => c,
    }
}

/// The request that a client sends.
pub open spec fn wish_json(w: Wish) -> Json {
    match w {
        Wish::Units(op, units) => units_json(op_text(op), all_normalized(units)),
        Wish::Kill(unit, signal) => Json::Obj(
            Map::<Text, Json>::empty().insert("op"@, Json::Str("kill"@)).insert(
                "units"@,
                text_array(seq![normalized(unit)]),
            ).insert("signal"@, Json::Str(signal)),
        ),
        Wish::ListDependencies(unit, reverse) => Json::Obj(
            Map::<Text, Json>::empty().insert("op"@, Json::Str("list_dependencies"@)).insert(
                "name"@,
                Json::Str(normalized(unit)),
            ).insert("reverse"@, Json::Bool(reverse)),
        ),
        Wish::ListUnits(types, state) => Json::Obj(
            Map::<Text, Json>::empty().insert("op"@, Json::Str("list_units"@)).insert(
                "types"@,
                text_array(types),
            ).insert("state"@, opt_text_json(state)).insert("pattern"@, Json::Null),
        ),
        Wish::ListUnitFiles => simple_json("list_unit_files"@),
        Wish::ListTimers => simple_json("list_timers"@),
        Wish::DaemonReload => simple_json("daemon_reload"@),
        Wish::GetDefault => simple_json("get_default"@),
        Wish::Repo => simple_json("repo"@),
        Wish::Journal(unit, since, tail) => Json::Obj(journal_members(unit, since, tail)),
        Wish::SetDefault(unit) => name_json("set_default"@, normalized(unit)),
        Wish::Isolate(unit) => name_json("isolate"@, normalized(unit)),
    }
}

/// The request that a client sends.
pub fn request_of(ask: &Ask) -> (r: serde_json::Value)
    ensures
        json_of(r) == wish_json(ask@),
{
    match ask {
        Ask::Units { op, units } => {
            let names = normalize(units);
            units_request(op.as_str(), &names)
        },
        Ask::Kill { unit, signal } => {
            let mut names: Vec<String> = Vec::new();
            names.push(normalize_unit(unit.as_str()));
            assert(texts(names@) =~= seq![normalized(unit@)]);
            let mut v = units_request("kill", &names);
            put_member(&mut v, "signal", text_value(signal.as_str()));
            v
        },
        Ask::ListDependencies { unit, reverse } => {
            let mut v = name_request("list_dependencies", normalize_unit(unit.as_str()).as_str());
            put_member(&mut v, "reverse", bool_value(*reverse));
            v
        },
        Ask::ListUnits { types, state } => {
            let mut v = simple_request("list_units");
            put_member(&mut v, "types", texts_value(types));
            put_member(&mut v, "state", opt_text_value(state));
            put_member(&mut v, "pattern", crate::json::null_value());
            v
        },
        Ask::ListUnitFiles => simple_request("list_unit_files"),
        Ask::ListTimers => simple_request("list_timers"),
        Ask::DaemonReload => simple_request("daemon_reload"),
        Ask::GetDefault => simple_request("get_default"),
        Ask::Repo => simple_request("repo"),
        Ask::Journal { unit, since, tail } => {
            let mut v = simple_request("journal");
            match unit {
                Some(u) => put_member(&mut v, "unit", text_value(u.as_str())),
                None => {},
            }
            match since {
                Some(s) => put_member(&mut v, "since", unsigned_value(*s)),
                None => {},
            }
            match tail {
                Some(t) => put_member(&mut v, "tail", unsigned_value(*t)),
                None => {},
            }
            v
        },
        Ask::SetDefault { unit } => name_request(
            "set_default",
            normalize_unit(unit.as_str()).as_str(),
        ),
        Ask::Isolate { unit } => name_request("isolate", normalize_unit(unit.as_str()).as_str()),
    }
}

// ---- requests arrive ------------------------------------------------------------

/// What the manager is asked when a client asks this.
pub open spec fn granted(w: Wish) -> Result<Asked, Text> {
    match w {
        Wish::Units(op, units) => Ok(Asked::Units(op, all_normalized(units))),
        Wish::Kill(unit, signal) => match signal_of(signal) {
            Some(n) => Ok(Asked::Kill(normalized(unit), n)),
            None => Err("unknown signal `"@ + signal + "`"@),
        },
        Wish::ListDependencies(unit, reverse) => Ok(
            Asked::ListDependencies(normalized(unit), reverse),
        ),
        Wish::ListUnits(types, state) => Ok(Asked::ListUnits(types, state, None)),
        Wish::ListUnitFiles => Ok(Asked::ListUnitFiles),
        Wish::ListTimers => Ok(Asked::ListTimers),
        Wish::DaemonReload => Ok(Asked::DaemonReload),
        Wish::GetDefault => Ok(Asked::GetDefault),
        Wish::Repo => Ok(Asked::Repo),
        Wish::Journal(unit, since, tail) => Ok(Asked::Journal(unit, since, tail)),
        Wish::SetDefault(unit) => Ok(Asked::SetDefault(normalized(unit))),
        Wish::Isolate(unit) => Ok(Asked::Isolate(normalized(unit))),
    }
}

proof fn op_name_is_read(op: UnitsOp)
    ensures
        units_op_of(op_text(op)) == Some(op),
{
    reveal_strlit("start");
    reveal_strlit("stop");
    reveal_strlit("restart");
    reveal_strlit("try_restart");
    reveal_strlit("reload");
    reveal_strlit("reset_failed");
    reveal_strlit("clean");
    reveal_strlit("status");
    reveal_strlit("is_active");
    reveal_strlit("is_failed");
    reveal_strlit("cat");
    reveal_strlit("enable");
    reveal_strlit("disable");
    reveal_strlit("mask");
    reveal_strlit("unmask");
    reveal_strlit("reenable");
    reveal_strlit("is_enabled");
    assert("start"@.len() == 5);
    assert("stop"@.len() == 4);
    assert("restart"@.len() == 7);
    assert("try_restart"@.len() == 11);
    assert("reload"@.len() == 6);
    assert("reset_failed"@.len() == 12);
    assert("clean"@.len() == 5);
    assert("status"@.len() == 6);
    assert("is_active"@.len() == 9);
    assert("is_failed"@.len() == 9);
    assert("cat"@.len() == 3);
    assert("enable"@.len() == 6);
    assert("disable"@.len() == 7);
    assert("mask"@.len() == 4);
    assert("unmask"@.len() == 6);
    assert("reenable"@.len() == 8);
    assert("is_enabled"@.len() == 10);
    assert("start"@[0] == 's');
    assert("stop"@[0] == 's');
    assert("restart"@[0] == 'r');
    assert("reload"@[0] == 'r');
    assert("clean"@[0] == 'c');
    assert("status"@[0] == 's');
    assert("is_active"@[3] == 'a');
    assert("is_failed"@[3] == 'f');
    assert("enable"@[0] == 'e');
    assert("disable"@[0] == 'd');
    assert("mask"@[0] == 'm');
    assert("unmask"@[0] == 'u');
}

proof fn other_ops_take_no_units()
    ensures
        units_op_of("kill"@) is None,
        units_op_of("list_dependencies"@) is None,
        units_op_of("list_units"@) is None,
        units_op_of("list_unit_files"@) is None,
        units_op_of("list_timers"@) is None,
        units_op_of("daemon_reload"@) is None,
        units_op_of("get_default"@) is None,
        units_op_of("repo"@) is None,
        units_op_of("journal"@) is None,
        units_op_of("set_default"@) is None,
        units_op_of("isolate"@) is None,
{
    reveal_strlit("start");
    reveal_strlit("stop");
    reveal_strlit("restart");
    reveal_strlit("try_restart");
    reveal_strlit("reload");
    reveal_strlit("reset_failed");
    reveal_strlit("clean");
    reveal_strlit("status");
    reveal_strlit("is_active");
    reveal_strlit("is_failed");
    reveal_strlit("cat");
    reveal_strlit("enable");
    reveal_strlit("disable");
    reveal_strlit("mask");
    reveal_strlit("unmask");
    reveal_strlit("reenable");
    reveal_strlit("is_enabled");
    reveal_strlit("kill");
    reveal_strlit("list_dependencies");
    reveal_strlit("list_units");
    reveal_strlit("list_unit_files");
    reveal_strlit("list_timers");
    reveal_strlit("show");
    reveal_strlit("daemon_reload");
    reveal_strlit("get_default");
    reveal_strlit("repo");
    reveal_strlit("journal");
    reveal_strlit("set_default");
    reveal_strlit("isolate");
    assert("start"@.len() == 5);
    assert("stop"@.len() == 4);
    assert("restart"@.len() == 7);
    assert("try_restart"@.len() == 11);
    assert("reload"@.len() == 6);
    assert("reset_failed"@.len() == 12);
    assert("clean"@.len() == 5);
    assert("status"@.len() == 6);
    assert("is_active"@.len() == 9);
    assert("is_failed"@.len() == 9);
    assert("cat"@.len() == 3);
    assert("enable"@.len() == 6);
    assert("disable"@.len() == 7);
    assert("mask"@.len() == 4);
    assert("unmask"@.len() == 6);
    assert("reenable"@.len() == 8);
    assert("is_enabled"@.len() == 10);
    assert("kill"@.len() == 4);
    assert("list_dependencies"@.len() == 17);
    assert("list_units"@.len() == 10);
    assert("list_unit_files"@.len() == 15);
    assert("list_timers"@.len() == 11);
    assert("show"@.len() == 4);
    assert("daemon_reload"@.len() == 13);
    assert("get_default"@.len() == 11);
    assert("repo"@.len() == 4);
    assert("journal"@.len() == 7);
    assert("set_default"@.len() == 11);
    assert("isolate"@.len() == 7);
    assert("start"@[0] == 's');
    assert("stop"@[0] == 's');
    assert("stop"@[1] == 't');
    assert("restart"@[0] == 'r');
    assert("try_restart"@[0] == 't');
    assert("reload"@[0] == 'r');
    assert("clean"@[0] == 'c');
    assert("status"@[0] == 's');
    assert("is_active"@[3] == 'a');
    assert("is_failed"@[3] == 'f');
    assert("enable"@[0] == 'e');
    assert("disable"@[0] == 'd');
    assert("mask"@[0] == 'm');
    assert("unmask"@[0] == 'u');
    assert("is_enabled"@[0] == 'i');
    assert("kill"@[0] == 'k');
    assert("list_units"@[0] == 'l');
    assert("list_timers"@[0] == 'l');
    assert("show"@[0] == 's');
    assert("show"@[1] == 'h');
    assert("get_default"@[0] == 'g');
    assert("repo"@[0] == 'r');
    assert("journal"@[0] == 'j');
    assert("set_default"@[0] == 's');
    assert("isolate"@[0] == 'i');
}

proof fn other_ops_differ()
    ensures
        "list_dependencies"@ != "kill"@,
        "list_units"@ != "kill"@,
        "list_units"@ != "list_dependencies"@,
        "list_unit_files"@ != "kill"@,
        "list_unit_files"@ != "list_dependencies"@,
        "list_unit_files"@ != "list_units"@,
        "list_timers"@ != "kill"@,
        "list_timers"@ != "list_dependencies"@,
        "list_timers"@ != "list_units"@,
        "list_timers"@ != "list_unit_files"@,
        "show"@ != "kill"@,
        "show"@ != "list_dependencies"@,
        "show"@ != "list_units"@,
        "show"@ != "list_unit_files"@,
        "show"@ != "list_timers"@,
        "daemon_reload"@ != "kill"@,
        "daemon_reload"@ != "list_dependencies"@,
        "daemon_reload"@ != "list_units"@,
        "daemon_reload"@ != "list_unit_files"@,
        "daemon_reload"@ != "list_timers"@,
        "daemon_reload"@ != "show"@,
        "get_default"@ != "kill"@,
        "get_default"@ != "list_dependencies"@,
        "get_default"@ != "list_units"@,
        "get_default"@ != "list_unit_files"@,
        "get_default"@ != "list_timers"@,
        "get_default"@ != "show"@,
        "get_default"@ != "daemon_reload"@,
        "repo"@ != "kill"@,
        "repo"@ != "list_dependencies"@,
        "repo"@ != "list_units"@,
        "repo"@ != "list_unit_files"@,
        "repo"@ != "list_timers"@,
        "repo"@ != "show"@,
        "repo"@ != "daemon_reload"@,
        "repo"@ != "get_default"@,
        "journal"@ != "kill"@,
        "journal"@ != "list_dependencies"@,
        "journal"@ != "list_units"@,
        "journal"@ != "list_unit_files"@,
        "journal"@ != "list_timers"@,
        "journal"@ != "show"@,
        "journal"@ != "daemon_reload"@,
        "journal"@ != "get_default"@,
        "journal"@ != "repo"@,
        "set_default"@ != "kill"@,
        "set_default"@ != "list_dependencies"@,
        "set_default"@ != "list_units"@,
        "set_default"@ != "list_unit_files"@,
        "set_default"@ != "list_timers"@,
        "set_default"@ != "show"@,
        "set_default"@ != "daemon_reload"@,
        "set_default"@ != "get_default"@,
        "set_default"@ != "repo"@,
        "set_default"@ != "journal"@,
        "isolate"@ != "kill"@,
        "isolate"@ != "list_dependencies"@,
        "isolate"@ != "list_units"@,
        "isolate"@ != "list_unit_files"@,
        "isolate"@ != "list_timers"@,
        "isolate"@ != "show"@,
        "isolate"@ != "daemon_reload"@,
        "isolate"@ != "get_default"@,
        "isolate"@ != "repo"@,
        "isolate"@ != "journal"@,
        "isolate"@ != "set_default"@,
{
    reveal_strlit("kill");
    reveal_strlit("list_dependencies");
    reveal_strlit("list_units");
    reveal_strlit("list_unit_files");
    reveal_strlit("list_timers");
    reveal_strlit("show");
    reveal_strlit("daemon_reload");
    reveal_strlit("get_default");
    reveal_strlit("repo");
    reveal_strlit("journal");
    reveal_strlit("set_default");
    reveal_strlit("isolate");
    assert("kill"@.len() == 4);
    assert("list_dependencies"@.len() == 17);
    assert("list_units"@.len() == 10);
    assert("list_unit_files"@.len() == 15);
    assert("list_timers"@.len() == 11);
    assert("show"@.len() == 4);
    assert("daemon_reload"@.len() == 13);
    assert("get_default"@.len() == 11);
    assert("repo"@.len() == 4);
    assert("journal"@.len() == 7);
    assert("set_default"@.len() == 11);
    assert("isolate"@.len() == 7);
    assert("kill"@[0] == 'k');
    assert("list_timers"@[0] == 'l');
    assert("show"@[0] == 's');
    assert("get_default"@[0] == 'g');
    assert("repo"@[0] == 'r');
    assert("journal"@[0] == 'j');
    assert("set_default"@[0] == 's');
    assert("isolate"@[0] == 'i');
}

proof fn normalized_twice(v: Seq<Text>)
    ensures
        all_normalized(all_normalized(v)) == all_normalized(v),
{
    assert forall|i: int| 0 <= i < v.len() implies normalized(normalized(#[trigger] v[i]))
        == normalized(v[i]) by {
        normalized_is_final(v[i]);
    }
    assert(all_normalized(all_normalized(v)) =~= all_normalized(v));
}

/// What a client asks is what the manager is asked: every request arrives, with
/// its unit names normalized.
pub proof fn requests_arrive(w: Wish)
    ensures
        asked(wish_json(w)) == granted(w),
{
    let j = wish_json(w);
    reveal_strlit("op");
    reveal_strlit("units");
    reveal_strlit("signal");
    reveal_strlit("name");
    reveal_strlit("reverse");
    reveal_strlit("types");
    reveal_strlit("state");
    reveal_strlit("pattern");
    reveal_strlit("unit");
    reveal_strlit("since");
    reveal_strlit("tail");
    assert("op"@.len() == 2);
    assert("units"@.len() == 5);
    assert("signal"@.len() == 6);
    assert("name"@.len() == 4);
    assert("reverse"@.len() == 7);
    assert("types"@.len() == 5);
    assert("state"@.len() == 5);
    assert("pattern"@.len() == 7);
    assert("unit"@.len() == 4);
    assert("since"@.len() == 5);
    assert("tail"@.len() == 4);
    assert("units"@[0] == 'u');
    assert("name"@[0] == 'n');
    assert("reverse"@[0] == 'r');
    assert("types"@[0] == 't');
    assert("state"@[0] == 's');
    assert("state"@[1] == 't');
    assert("pattern"@[0] == 'p');
    assert("unit"@[0] == 'u');
    assert("since"@[0] == 's');
    assert("since"@[1] == 'i');
    assert("tail"@[0] == 't');
    match w {
        Wish::Units(op, units) => {
            op_name_is_read(op);
            strings_in_text_array(all_normalized(units));
            normalized_twice(units);
            assert(string_member(j, "op"@) == Some(op_text(op)));
            assert(requested_units(j) == all_normalized(units));
        },
        Wish::Kill(unit, signal) => {
            other_ops_take_no_units();
            let units = seq![normalized(unit)];
            strings_in_text_array(units);
            normalized_is_final(unit);
            assert(string_member(j, "op"@) == Some("kill"@));
            assert(string_list(j, "units"@) == units);
            assert(requested_units(j) =~= units);
            assert(string_member(j, "signal"@) == Some(signal));
        },
        Wish::ListUnits(types, state) => {
            other_ops_take_no_units();
            other_ops_differ();
            strings_in_text_array(types);
            assert(string_member(j, "op"@) == Some("list_units"@));
            assert(string_list(j, "types"@) == types);
            assert(string_member(j, "state"@) == state);
            assert(string_member(j, "pattern"@) is None);
        },
        Wish::ListDependencies(unit, reverse) => {
            other_ops_take_no_units();
            other_ops_differ();
            assert(string_member(j, "op"@) == Some("list_dependencies"@));
            assert(string_member(j, "name"@) == Some(normalized(unit)));
            assert(bool_member(j, "reverse"@) == Some(reverse));
        },
        _ => {
            other_ops_take_no_units();
            other_ops_differ();
        },
    }
}

/// Requests are nested no deeper than two values.
proof fn requests_are_shallow(w: Wish)
    ensures
        within_depth(wish_json(w), MAX_DEPTH as nat),
{
    let j = wish_json(w);
    let m = j->Obj_0;
    let d = (MAX_DEPTH - 1) as nat;
    assert forall|k: Text| m.contains_key(k) implies within_depth(#[trigger] m[k], d) by {
        match m[k] {
            Json::Arr(a) => {
                assert forall|i: int| 0 <= i < a.len() implies within_depth(
                    #[trigger] a[i],
                    (d - 1) as nat,
                ) by {
                    assert(a[i] is Str);
                }
            },
            _ => {},
        }
    }
}

/// The line that a client sends: the manager reads from it what is asked.
pub fn request_line(ask: &Ask) -> (r: String)
    ensures
        is_line(r@),
        r@ == printed_json(wish_json(ask@)).push('\n'),
        asked_by_line(parsed_json(r@)) == granted(ask@),
{
    proof {
        requests_are_shallow(ask@);
        requests_arrive(ask@);
    }
    line_of(&request_of(ask))
}

/// A request with the members of an object has all of them, and the operation unless one
/// of them is named so.
pub proof fn extra_members_are_sent(op: Text, m: Map<Text, Json>, k: Text)
    ensures
        m.contains_key(k) ==> member_of(json_with(op, Json::Obj(m)), k) == Some(m[k]),
        !m.contains_key("op"@) ==> member_of(json_with(op, Json::Obj(m)), "op"@) == Some(
            Json::Str(op),
        ),
        !m.contains_key(k) && k != "op"@ ==> member_of(json_with(op, Json::Obj(m)), k) is None,
        member_of(simple_json(op), "op"@) == Some(Json::Str(op)),
{
}

} // verus!
