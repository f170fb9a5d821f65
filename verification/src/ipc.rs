//! The control protocol: one JSON object per line each way.
//!
//! - request: `{"op": "...", ...args}`
//! - reply: `{"ok": true, "data": {...}}` or `{"ok": false, "error": "..."}`

use vstd::prelude::*;

use crate::control::{all_normalized, normalize};
use crate::json::{
    as_boolean, as_text, as_unsigned, bool_value, clone_value, empty_object, is_line, json_of,
    line_of, member, member_of, null_value, parse_json, parsed_json, printed_json, put_member,
    str_vec, strings_in, text_value, within_depth, Json, MAX_DEPTH,
};
use crate::platform::signal::{Signal, SIGTERM};
use crate::text::{cat2, cat3, opt_text, owned, same, texts, Text};
use crate::unit::values::{sig_from_name, signal_of};

pub mod agree;
pub mod depth;
pub mod journal;
pub mod laws;
pub mod run;
pub mod serve;
pub mod work;

pub use crate::ipc::serve::dispatch;

verus! {

/// The operations that take a list of units.
#[derive(Debug, Clone, Copy, PartialEq, Eq, Structural)]
pub enum UnitsOp {
    Start,
    Stop,
    Restart,
    TryRestart,
    Reload,
    ResetFailed,
    Clean,
    Status,
    IsActive,
    IsFailed,
    Cat,
    Enable,
    Disable,
    Mask,
    Unmask,
    Reenable,
    IsEnabled,
}

/// The name of an operation on the wire.
pub open spec fn op_text(op: UnitsOp) -> Text {
    match op {
        UnitsOp::Start => "start"@,
        UnitsOp::Stop => "stop"@,
        UnitsOp::Restart => "restart"@,
        UnitsOp::TryRestart => "try_restart"@,
        UnitsOp::Reload => "reload"@,
        UnitsOp::ResetFailed => "reset_failed"@,
        UnitsOp::Clean => "clean"@,
        UnitsOp::Status => "status"@,
        UnitsOp::IsActive => "is_active"@,
        UnitsOp::IsFailed => "is_failed"@,
        UnitsOp::Cat => "cat"@,
        UnitsOp::Enable => "enable"@,
        UnitsOp::Disable => "disable"@,
        UnitsOp::Mask => "mask"@,
        UnitsOp::Unmask => "unmask"@,
        UnitsOp::Reenable => "reenable"@,
        UnitsOp::IsEnabled => "is_enabled"@,
    }
}

/// The operation that a name stands for.
pub open spec fn units_op_of(op: Text) -> Option<UnitsOp> {
    if op == "start"@ {
        Some(UnitsOp::Start)
    } else if op == "stop"@ {
        Some(UnitsOp::Stop)
    } else if op == "restart"@ {
        Some(UnitsOp::Restart)
    } else if op == "try_restart"@ {
        Some(UnitsOp::TryRestart)
    } else if op == "reload"@ {
        Some(UnitsOp::Reload)
    } else if op == "reset_failed"@ {
        Some(UnitsOp::ResetFailed)
    } else if op == "clean"@ {
        Some(UnitsOp::Clean)
    } else if op == "status"@ {
        Some(UnitsOp::Status)
    } else if op == "is_active"@ {
        Some(UnitsOp::IsActive)
    } else if op == "is_failed"@ {
        Some(UnitsOp::IsFailed)
    } else if op == "cat"@ {
        Some(UnitsOp::Cat)
    } else if op == "enable"@ {
        Some(UnitsOp::Enable)
    } else if op == "disable"@ {
        Some(UnitsOp::Disable)
    } else if op == "mask"@ {
        Some(UnitsOp::Mask)
    } else if op == "unmask"@ {
        Some(UnitsOp::Unmask)
    } else if op == "reenable"@ {
        Some(UnitsOp::Reenable)
    } else if op == "is_enabled"@ {
        Some(UnitsOp::IsEnabled)
    } else {
        None
    }
}

fn read_units_op(op: &str) -> (r: Option<UnitsOp>)
    ensures
        r == units_op_of(op@),
{
    if same(op, "start") {
        Some(UnitsOp::Start)
    } else if same(op, "stop") {
        Some(UnitsOp::Stop)
    } else if same(op, "restart") {
        Some(UnitsOp::Restart)
    } else if same(op, "try_restart") {
        Some(UnitsOp::TryRestart)
    } else if same(op, "reload") {
        Some(UnitsOp::Reload)
    } else if same(op, "reset_failed") {
        Some(UnitsOp::ResetFailed)
    } else if same(op, "clean") {
        Some(UnitsOp::Clean)
    } else if same(op, "status") {
        Some(UnitsOp::Status)
    } else if same(op, "is_active") {
        Some(UnitsOp::IsActive)
    } else if same(op, "is_failed") {
        Some(UnitsOp::IsFailed)
    } else if same(op, "cat") {
        Some(UnitsOp::Cat)
    } else if same(op, "enable") {
        Some(UnitsOp::Enable)
    } else if same(op, "disable") {
        Some(UnitsOp::Disable)
    } else if same(op, "mask") {
        Some(UnitsOp::Mask)
    } else if same(op, "unmask") {
        Some(UnitsOp::Unmask)
    } else if same(op, "reenable") {
        Some(UnitsOp::Reenable)
    } else if same(op, "is_enabled") {
        Some(UnitsOp::IsEnabled)
    } else {
        None
    }
}

impl UnitsOp {
    /// The name of the operation on the wire.
    pub fn as_str(&self) -> (r: &'static str)
        ensures
            r@ == op_text(*self),
    {
        match self {
            UnitsOp::Start => "start",
            UnitsOp::Stop => "stop",
            UnitsOp::Restart => "restart",
            UnitsOp::TryRestart => "try_restart",
            UnitsOp::Reload => "reload",
            UnitsOp::ResetFailed => "reset_failed",
            UnitsOp::Clean => "clean",
            UnitsOp::Status => "status",
            UnitsOp::IsActive => "is_active",
            UnitsOp::IsFailed => "is_failed",
            UnitsOp::Cat => "cat",
            UnitsOp::Enable => "enable",
            UnitsOp::Disable => "disable",
            UnitsOp::Mask => "mask",
            UnitsOp::Unmask => "unmask",
            UnitsOp::Reenable => "reenable",
            UnitsOp::IsEnabled => "is_enabled",
        }
    }
}

/// What is asked of the manager.
#[derive(Debug, Clone)]
pub enum Request {
    Units { op: UnitsOp, units: Vec<String> },
    Kill { unit: String, signal: Signal },
    ListDependencies { name: String, reverse: bool },
    ListUnits { types: Vec<String>, state: Option<String>, pattern: Option<String> },
    ListUnitFiles,
    ListTimers,
    Show { units: Vec<String>, properties: Vec<String> },
    DaemonReload,
    GetDefault,
    Repo,
    Journal { unit: Option<String>, since: Option<u64>, tail: Option<u64> },
    SetDefault { name: String },
    Isolate { name: String },
    IsSystemRunning,
    Shutdown,
}

/// What is asked, as specifications see it.
pub ghost enum Asked {
    Units(UnitsOp, Seq<Text>),
    Kill(Text, int),
    ListDependencies(Text, bool),
    ListUnits(Seq<Text>, Option<Text>, Option<Text>),
    ListUnitFiles,
    ListTimers,
    Show(Seq<Text>, Seq<Text>),
    DaemonReload,
    GetDefault,
    Repo,
    Journal(Option<Text>, Option<u64>, Option<u64>),
    SetDefault(Text),
    Isolate(Text),
    IsSystemRunning,
    Shutdown,
}

impl View for Request {
    type V = Asked;

    open spec fn view(&self) -> Asked {
        match self {
            Request::Units { op, units } => Asked::Units(*op, texts(units@)),
            Request::Kill { unit, signal } => Asked::Kill(unit@, signal.raw()),
            Request::ListDependencies { name, reverse } => Asked::ListDependencies(name@, *reverse),
            Request::ListUnits { types, state, pattern } => Asked::ListUnits(
                texts(types@),
                opt_text(*state),
                opt_text(*pattern),
            ),
            Request::ListUnitFiles => Asked::ListUnitFiles,
            Request::ListTimers => Asked::ListTimers,
            Request::Show { units, properties } => Asked::Show(texts(units@), texts(properties@)),
            Request::DaemonReload => Asked::DaemonReload,
            Request::GetDefault => Asked::GetDefault,
            Request::Repo => Asked::Repo,
            Request::Journal { unit, since, tail } => Asked::Journal(
                opt_text(*unit),
                *since,
                *tail,
            ),
            Request::SetDefault { name } => Asked::SetDefault(name@),
            Request::Isolate { name } => Asked::Isolate(name@),
            Request::IsSystemRunning => Asked::IsSystemRunning,
            Request::Shutdown => Asked::Shutdown,
        }
    }
}

// ---- reading requests -----------------------------------------------------------

/// The strings of a member that is an array; none where it is not.
pub open spec fn string_list(j: Json, key: Text) -> Seq<Text> {
    match member_of(j, key) {
        Some(m) => match strings_in(m) {
            Some(s) => s,
            None => seq![],
        },
        None => seq![],
    }
}

/// A member that is a string.
pub open spec fn string_member(j: Json, key: Text) -> Option<Text> {
    match member_of(j, key) {
        Some(Json::Str(s)) => Some(s),
        _ => None,
    }
}

/// A member that is a boolean.
pub open spec fn bool_member(j: Json, key: Text) -> Option<bool> {
    match member_of(j, key) {
        Some(Json::Bool(b)) => Some(b),
        _ => None,
    }
}

/// A member that is an unsigned integer.
pub open spec fn unsigned_member(j: Json, key: Text) -> Option<u64> {
    match member_of(j, key) {
        Some(Json::Int(n)) => if 0 <= n <= u64::MAX {
            Some(n as u64)
        } else {
            None
        },
        _ => None,
    }
}

/// The units that a request names, normalized.
pub open spec fn requested_units(j: Json) -> Seq<Text> {
    all_normalized(string_list(j, "units"@))
}

/// The signal that a request to kill names: `SIGTERM` where it names none.
pub open spec fn requested_signal(j: Json) -> Result<int, Text> {
    match string_member(j, "signal"@) {
        None => Ok(SIGTERM as int),
        Some(s) => match signal_of(s) {
            Some(n) => Ok(n),
            None => Err("unknown signal `"@ + s + "`"@),
        },
    }
}

/// What a request asks, or why it is refused.
pub open spec fn asked(j: Json) -> Result<Asked, Text> {
    match string_member(j, "op"@) {
        None => Err("missing op"@),
        Some(op) => match units_op_of(op) {
            Some(x) => Ok(Asked::Units(x, requested_units(j))),
            None => if op == "kill"@ {
                if requested_units(j).len() == 0 {
                    Err("kill: no unit"@)
                } else {
                    match requested_signal(j) {
                        Ok(n) => Ok(Asked::Kill(requested_units(j)[0], n)),
                        Err(e) => Err(e),
                    }
                }
            } else if op == "list_dependencies"@ {
                match string_member(j, "name"@) {
                    None => Err("list_dependencies: missing name"@),
                    Some(n) => Ok(
                        Asked::ListDependencies(
                            n,
                            match bool_member(j, "reverse"@) {
                                Some(b) => b,
                                None => false,
                            },
                        ),
                    ),
                }
            } else if op == "list_units"@ {
                Ok(
                    Asked::ListUnits(
                        string_list(j, "types"@),
                        string_member(j, "state"@),
                        string_member(j, "pattern"@),
                    ),
                )
            } else if op == "list_unit_files"@ {
                Ok(Asked::ListUnitFiles)
            } else if op == "list_timers"@ {
                Ok(Asked::ListTimers)
            } else if op == "show"@ {
                Ok(Asked::Show(requested_units(j), string_list(j, "properties"@)))
            } else if op == "daemon_reload"@ {
                Ok(Asked::DaemonReload)
            } else if op == "get_default"@ {
                Ok(Asked::GetDefault)
            } else if op == "repo"@ {
                Ok(Asked::Repo)
            } else if op == "journal"@ {
                Ok(
                    Asked::Journal(
                        string_member(j, "unit"@),
                        unsigned_member(j, "since"@),
                        unsigned_member(j, "tail"@),
                    ),
                )
            } else if op == "set_default"@ {
                match string_member(j, "name"@) {
                    None => Err("set_default: missing name"@),
                    Some(n) => Ok(Asked::SetDefault(n)),
                }
            } else if op == "isolate"@ {
                match string_member(j, "name"@) {
                    None => Err("isolate: missing name"@),
                    Some(n) => Ok(Asked::Isolate(n)),
                }
            } else if op == "is_system_running"@ {
                Ok(Asked::IsSystemRunning)
            } else if op == "shutdown"@ {
                Ok(Asked::Shutdown)
            } else {
                Err("unknown op `"@ + op + "`"@)
            },
        },
    }
}

fn req_list(req: &serde_json::Value, key: &str) -> (r: Vec<String>)
    ensures
        texts(r@) == string_list(json_of(*req), key@),
{
    match member(req, key) {
        Some(m) => match str_vec(m) {
            Some(s) => {
                return s;
            },
            None => {},
        },
        None => {},
    }
    let none: Vec<String> = Vec::new();
    assert(texts(none@) =~= seq![]);
    none
}

fn req_units(req: &serde_json::Value) -> (r: Vec<String>)
    ensures
        texts(r@) == requested_units(json_of(*req)),
{
    let names = req_list(req, "units");
    normalize(&names)
}

fn req_str(req: &serde_json::Value, key: &str) -> (r: Option<String>)
    ensures
        opt_text(r) == string_member(json_of(*req), key@),
{
    match member(req, key) {
        Some(m) => match as_text(m) {
            Some(s) => Some(owned(s)),
            None => None,
        },
        None => None,
    }
}

fn req_unsigned(req: &serde_json::Value, key: &str) -> (r: Option<u64>)
    ensures
        r == unsigned_member(json_of(*req), key@),
{
    match member(req, key) {
        Some(m) => as_unsigned(m),
        None => None,
    }
}

fn req_bool(req: &serde_json::Value, key: &str) -> (r: Option<bool>)
    ensures
        r == bool_member(json_of(*req), key@),
{
    match member(req, key) {
        Some(m) => as_boolean(m),
        None => None,
    }
}

/// A result over a request, as specifications see it.
pub open spec fn asked_result(r: Result<Request, String>) -> Result<Asked, Text> {
    match r {
        Ok(q) => Ok(q@),
        Err(e) => Err(e@),
    }
}

/// Read a request.
pub fn read_request(req: &serde_json::Value) -> (r: Result<Request, String>)
    ensures
        asked_result(r) == asked(json_of(*req)),
{
    let op_string = match req_str(req, "op") {
        Some(s) => s,
        None => {
            return Err(owned("missing op"));
        },
    };
    let op = op_string.as_str();
    match read_units_op(op) {
        Some(x) => {
            return Ok(Request::Units { op: x, units: req_units(req) });
        },
        None => {},
    }
    if same(op, "kill") {
        let units = req_units(req);
        if units.len() == 0 {
            return Err(owned("kill: no unit"));
        }
        let signal = match req_str(req, "signal") {
            None => Signal::sigterm(),
            Some(s) => match sig_from_name(s.as_str()) {
                Some(g) => g,
                None => {
                    return Err(cat3("unknown signal `", s.as_str(), "`"));
                },
            },
        };
        assert(texts(units@)[0] == units@[0]@);
        Ok(Request::Kill { unit: units[0].clone(), signal })
    } else if same(op, "list_dependencies") {
        match req_str(req, "name") {
            None => Err(owned("list_dependencies: missing name")),
            Some(name) => Ok(
                Request::ListDependencies {
                    name,
                    reverse: match req_bool(req, "reverse") {
                        Some(b) => b,
                        None => false,
                    },
                },
            ),
        }
    } else if same(op, "list_units") {
        Ok(
            Request::ListUnits {
                types: req_list(req, "types"),
                state: req_str(req, "state"),
                pattern: req_str(req, "pattern"),
            },
        )
    } else if same(op, "list_unit_files") {
        Ok(Request::ListUnitFiles)
    } else if same(op, "list_timers") {
        Ok(Request::ListTimers)
    } else if same(op, "show") {
        Ok(Request::Show { units: req_units(req), properties: req_list(req, "properties") })
    } else if same(op, "daemon_reload") {
        Ok(Request::DaemonReload)
    } else if same(op, "get_default") {
        Ok(Request::GetDefault)
    } else if same(op, "repo") {
        Ok(Request::Repo)
    } else if same(op, "journal") {
        Ok(
            Request::Journal {
                unit: req_str(req, "unit"),
                since: req_unsigned(req, "since"),
                tail: req_unsigned(req, "tail"),
            },
        )
    } else if same(op, "set_default") {
        match req_str(req, "name") {
            None => Err(owned("set_default: missing name")),
            Some(name) => Ok(Request::SetDefault { name }),
        }
    } else if same(op, "isolate") {
        match req_str(req, "name") {
            None => Err(owned("isolate: missing name")),
            Some(name) => Ok(Request::Isolate { name }),
        }
    } else if same(op, "is_system_running") {
        Ok(Request::IsSystemRunning)
    } else if same(op, "shutdown") {
        Ok(Request::Shutdown)
    } else {
        Err(cat3("unknown op `", op, "`"))
    }
}

/// What a request line asks, or why it is refused.
pub open spec fn asked_by_line(parsed: Result<Json, Text>) -> Result<Asked, Text> {
    match parsed {
        Ok(j) => asked(j),
        Err(e) => Err("bad request: "@ + e),
    }
}

/// Read one request line.
pub fn read_request_line(line: &str) -> (r: Result<Request, String>)
    ensures
        asked_result(r) == asked_by_line(parsed_json(line@)),
{
    match parse_json(line) {
        Ok(v) => read_request(&v),
        Err(e) => Err(cat2("bad request: ", e.as_str())),
    }
}

// ---- replies --------------------------------------------------------------------

/// The reply to a request that came to this.
pub open spec fn reply_json(r: Result<Json, Text>) -> Json {
    match r {
        Ok(d) => Json::Obj(
            Map::<Text, Json>::empty().insert("ok"@, Json::Bool(true)).insert("data"@, d),
        ),
        Err(e) => Json::Obj(
            Map::<Text, Json>::empty().insert("ok"@, Json::Bool(false)).insert(
                "error"@,
                Json::Str(e),
            ),
        ),
    }
}

/// A result over a value, as specifications see it.
pub open spec fn value_result(r: Result<serde_json::Value, String>) -> Result<Json, Text> {
    match r {
        Ok(v) => Ok(json_of(v)),
        Err(e) => Err(e@),
    }
}

/// The reply to a request that came to this.
pub fn reply(r: Result<serde_json::Value, String>) -> (v: serde_json::Value)
    ensures
        json_of(v) == reply_json(value_result(r)),
{
    let mut v = empty_object();
    match r {
        Ok(d) => {
            put_member(&mut v, "ok", bool_value(true));
            put_member(&mut v, "data", d);
        },
        Err(e) => {
            put_member(&mut v, "ok", bool_value(false));
            put_member(&mut v, "error", text_value(e.as_str()));
        },
    }
    v
}

/// What a reply brings: its data, or its error.
pub open spec fn reply_brings(j: Json) -> Result<Json, Text> {
    if bool_member(j, "ok"@) == Some(true) {
        match member_of(j, "data"@) {
            Some(d) => Ok(d),
            None => Ok(Json::Null),
        }
    } else {
        match string_member(j, "error"@) {
            Some(e) => Err(e),
            None => Err("unknown error"@),
        }
    }
}

/// What a reply brings: its data, or its error.
pub fn reply_data(v: &serde_json::Value) -> (r: Result<serde_json::Value, String>)
    ensures
        value_result(r) == reply_brings(json_of(*v)),
{
    match req_bool(v, "ok") {
        Some(true) => match member(v, "data") {
            Some(d) => Ok(clone_value(d)),
            None => Ok(null_value()),
        },
        _ => match req_str(v, "error") {
            Some(e) => Err(e),
            None => Err(owned("unknown error")),
        },
    }
}

/// What a reply line brings.
pub open spec fn line_brings(parsed: Result<Json, Text>) -> Result<Json, Text> {
    match parsed {
        Ok(j) => reply_brings(j),
        Err(e) => Err("bad response: "@ + e),
    }
}

/// Read one reply line.
pub fn read_reply_line(line: &str) -> (r: Result<serde_json::Value, String>)
    ensures
        value_result(r) == line_brings(parsed_json(line@)),
{
    match parse_json(line) {
        Ok(v) => reply_data(&v),
        Err(e) => Err(cat2("bad response: ", e.as_str())),
    }
}

/// One reply line: the reply in its compact form. What went in is read from it,
/// where the data is not nested too deep.
pub fn reply_line(r: Result<serde_json::Value, String>) -> (s: String)
    ensures
        is_line(s@),
        s@ == printed_json(reply_json(value_result(r))).push('\n'),
        r is Ok ==> within_depth(json_of(r->Ok_0), (MAX_DEPTH - 1) as nat) ==> line_brings(
            parsed_json(s@),
        ) == value_result(r),
        r is Err ==> line_brings(parsed_json(s@)) == value_result(r),
{
    let ghost v = value_result(r);
    let line = line_of(&reply(r));
    proof {
        replies_arrive(v);
        let m = reply_json(v)->Obj_0;
        if v is Err || within_depth(v->Ok_0, (MAX_DEPTH - 1) as nat) {
            assert forall|k: Text| m.contains_key(k) implies within_depth(
                #[trigger] m[k],
                (MAX_DEPTH - 1) as nat,
            ) by {}
        }
    }
    line
}

/// What went into a reply comes out of it.
pub proof fn replies_arrive(r: Result<Json, Text>)
    ensures
        reply_brings(reply_json(r)) == r,
{
    reveal_strlit("ok");
    reveal_strlit("data");
    reveal_strlit("error");
    assert("ok"@.len() == 2 && "data"@.len() == 4 && "error"@.len() == 5);
}

} // verus!
