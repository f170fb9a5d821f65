//! What comes of a request, in terms of the members of the object that carries it.

use vstd::prelude::*;

use crate::control::{
    all_normalized, cats_json, records_json, repo_json, statuses_json, summaries_json, timers_json,
    Place,
};
use crate::ipc::journal::selected;
use crate::ipc::run::{
    answered, first_missing, is_active_reply, is_degraded, is_failed_reply, not_found,
    running_json, statuses, units_after, worst, Answered, Facts, SequenceOp, Todo, Work,
};
use crate::ipc::work::{
    all_messages, doing, duties, load_reply, messages_reply, plain_reply, stepped, upcoming, Event,
    Next, Stage, Task,
};
use crate::ipc::{
    asked, asked_by_line, bool_member, line_brings, op_text, reply_brings, reply_json,
    requested_units, string_member, units_op_of, Asked, Request, UnitsOp,
};
use crate::json::{member_of, strings_in_text_array, text_array, Json};
use crate::manager::ops::{
    cat_entries, query_list, reset, resetting_clears_failures, shown_units, state_in, summaries,
    timer_infos, Lifecycle,
};
use crate::manager::state::{ActiveState, Unit};
use crate::names::normalized;
use crate::order::views;
use crate::platform::signal::Signal;
use crate::table::sorted_keys;
use crate::text::{joined, opt_text, texts, Text};
use crate::unit::values::signal_of;

verus! {

// ---- names of operations --------------------------------------------------------

/// Each operation on units has its own name on the wire, and a name stands for no
/// other operation.
#[verifier::spinoff_prover]
#[verifier::rlimit(60)]
pub proof fn operations_have_these_names(op: UnitsOp, t: Text)
    ensures
        op_text(op) == "start"@ <==> op == UnitsOp::Start,
        op_text(op) == "stop"@ <==> op == UnitsOp::Stop,
        op_text(op) == "restart"@ <==> op == UnitsOp::Restart,
        op_text(op) == "try_restart"@ <==> op == UnitsOp::TryRestart,
        op_text(op) == "reload"@ <==> op == UnitsOp::Reload,
        op_text(op) == "reset_failed"@ <==> op == UnitsOp::ResetFailed,
        op_text(op) == "clean"@ <==> op == UnitsOp::Clean,
        op_text(op) == "status"@ <==> op == UnitsOp::Status,
        op_text(op) == "is_active"@ <==> op == UnitsOp::IsActive,
        op_text(op) == "is_failed"@ <==> op == UnitsOp::IsFailed,
        op_text(op) == "cat"@ <==> op == UnitsOp::Cat,
        op_text(op) == "enable"@ <==> op == UnitsOp::Enable,
        op_text(op) == "disable"@ <==> op == UnitsOp::Disable,
        op_text(op) == "mask"@ <==> op == UnitsOp::Mask,
        op_text(op) == "unmask"@ <==> op == UnitsOp::Unmask,
        op_text(op) == "reenable"@ <==> op == UnitsOp::Reenable,
        op_text(op) == "is_enabled"@ <==> op == UnitsOp::IsEnabled,
        units_op_of(t) == Some(UnitsOp::Start) <==> t == "start"@,
        units_op_of(t) == Some(UnitsOp::Stop) <==> t == "stop"@,
        units_op_of(t) == Some(UnitsOp::Restart) <==> t == "restart"@,
        units_op_of(t) == Some(UnitsOp::TryRestart) <==> t == "try_restart"@,
        units_op_of(t) == Some(UnitsOp::Reload) <==> t == "reload"@,
        units_op_of(t) == Some(UnitsOp::ResetFailed) <==> t == "reset_failed"@,
        units_op_of(t) == Some(UnitsOp::Clean) <==> t == "clean"@,
        units_op_of(t) == Some(UnitsOp::Status) <==> t == "status"@,
        units_op_of(t) == Some(UnitsOp::IsActive) <==> t == "is_active"@,
        units_op_of(t) == Some(UnitsOp::IsFailed) <==> t == "is_failed"@,
        units_op_of(t) == Some(UnitsOp::Cat) <==> t == "cat"@,
        units_op_of(t) == Some(UnitsOp::Enable) <==> t == "enable"@,
        units_op_of(t) == Some(UnitsOp::Disable) <==> t == "disable"@,
        units_op_of(t) == Some(UnitsOp::Mask) <==> t == "mask"@,
        units_op_of(t) == Some(UnitsOp::Unmask) <==> t == "unmask"@,
        units_op_of(t) == Some(UnitsOp::Reenable) <==> t == "reenable"@,
        units_op_of(t) == Some(UnitsOp::IsEnabled) <==> t == "is_enabled"@,
{
    reveal_strlit("start");
    reveal_strlit("stop");
    reveal_strlit("restart");
    reveal_strlit("try_restart");
    reveal_strlit("reload");
    reveal_strlit("reset_failed");
    reveal_strlit("clean");
    reveal_strlit("status");
    reveal_strlit("is_active");
    reveal_strlit("is_failed");
    reveal_strlit("cat");
    reveal_strlit("enable");
    reveal_strlit("disable");
    reveal_strlit("mask");
    reveal_strlit("unmask");
    reveal_strlit("reenable");
    reveal_strlit("is_enabled");
    assert("start"@.len() == 5 && "start"@[0] == 's' && "start"@[1] == 't' && "start"@[2] == 'a' && "start"@[3] == 'r' && "start"@[4] == 't');
    assert("stop"@.len() == 4 && "stop"@[0] == 's' && "stop"@[1] == 't' && "stop"@[2] == 'o' && "stop"@[3] == 'p');
    assert("restart"@.len() == 7 && "restart"@[0] == 'r' && "restart"@[1] == 'e' && "restart"@[2] == 's' && "restart"@[3] == 't' && "restart"@[4] == 'a' && "restart"@[5] == 'r');
    assert("try_restart"@.len() == 11 && "try_restart"@[0] == 't' && "try_restart"@[1] == 'r' && "try_restart"@[2] == 'y' && "try_restart"@[3] == '_' && "try_restart"@[4] == 'r' && "try_restart"@[5] == 'e');
    assert("reload"@.len() == 6 && "reload"@[0] == 'r' && "reload"@[1] == 'e' && "reload"@[2] == 'l' && "reload"@[3] == 'o' && "reload"@[4] == 'a' && "reload"@[5] == 'd');
    assert("reset_failed"@.len() == 12 && "reset_failed"@[0] == 'r' && "reset_failed"@[1] == 'e' && "reset_failed"@[2] == 's' && "reset_failed"@[3] == 'e' && "reset_failed"@[4] == 't' && "reset_failed"@[5] == '_');
    assert("clean"@.len() == 5 && "clean"@[0] == 'c' && "clean"@[1] == 'l' && "clean"@[2] == 'e' && "clean"@[3] == 'a' && "clean"@[4] == 'n');
    assert("status"@.len() == 6 && "status"@[0] == 's' && "status"@[1] == 't' && "status"@[2] == 'a' && "status"@[3] == 't' && "status"@[4] == 'u' && "status"@[5] == 's');
    assert("is_active"@.len() == 9 && "is_active"@[0] == 'i' && "is_active"@[1] == 's' && "is_active"@[2] == '_' && "is_active"@[3] == 'a' && "is_active"@[4] == 'c' && "is_active"@[5] == 't');
    assert("is_failed"@.len() == 9 && "is_failed"@[0] == 'i' && "is_failed"@[1] == 's' && "is_failed"@[2] == '_' && "is_failed"@[3] == 'f' && "is_failed"@[4] == 'a' && "is_failed"@[5] == 'i');
    assert("cat"@.len() == 3 && "cat"@[0] == 'c' && "cat"@[1] == 'a' && "cat"@[2] == 't');
    assert("enable"@.len() == 6 && "enable"@[0] == 'e' && "enable"@[1] == 'n' && "enable"@[2] == 'a' && "enable"@[3] == 'b' && "enable"@[4] == 'l' && "enable"@[5] == 'e');
    assert("disable"@.len() == 7 && "disable"@[0] == 'd' && "disable"@[1] == 'i' && "disable"@[2] == 's' && "disable"@[3] == 'a' && "disable"@[4] == 'b' && "disable"@[5] == 'l');
    assert("mask"@.len() == 4 && "mask"@[0] == 'm' && "mask"@[1] == 'a' && "mask"@[2] == 's' && "mask"@[3] == 'k');
    assert("unmask"@.len() == 6 && "unmask"@[0] == 'u' && "unmask"@[1] == 'n' && "unmask"@[2] == 'm' && "unmask"@[3] == 'a' && "unmask"@[4] == 's' && "unmask"@[5] == 'k');
    assert("reenable"@.len() == 8 && "reenable"@[0] == 'r' && "reenable"@[1] == 'e' && "reenable"@[2] == 'e' && "reenable"@[3] == 'n' && "reenable"@[4] == 'a' && "reenable"@[5] == 'b');
    assert("is_enabled"@.len() == 10 && "is_enabled"@[0] == 'i' && "is_enabled"@[1] == 's' && "is_enabled"@[2] == '_' && "is_enabled"@[3] == 'e' && "is_enabled"@[4] == 'n' && "is_enabled"@[5] == 'a');
}

/// The names of the other operations are none of those.
#[verifier::spinoff_prover]
#[verifier::rlimit(60)]
proof fn other_operations_are_others(t: Text)
    requires
        t == "kill"@ || t == "list_dependencies"@ || t == "list_units"@ || t == "list_unit_files"@ || t == "list_timers"@ || t == "show"@ || t == "daemon_reload"@ || t == "get_default"@ || t == "repo"@ || t == "journal"@ || t == "set_default"@ || t == "isolate"@ || t == "is_system_running"@ || t == "shutdown"@,
    ensures
        units_op_of(t) is None,
{
    reveal_strlit("start");
    reveal_strlit("stop");
    reveal_strlit("restart");
    reveal_strlit("try_restart");
    reveal_strlit("reload");
    reveal_strlit("reset_failed");
    reveal_strlit("clean");
    reveal_strlit("status");
    reveal_strlit("is_active");
    reveal_strlit("is_failed");
    reveal_strlit("cat");
    reveal_strlit("enable");
    reveal_strlit("disable");
    reveal_strlit("mask");
    reveal_strlit("unmask");
    reveal_strlit("reenable");
    reveal_strlit("is_enabled");
    reveal_strlit("kill");
    reveal_strlit("list_dependencies");
    reveal_strlit("list_units");
    reveal_strlit("list_unit_files");
    reveal_strlit("list_timers");
    reveal_strlit("show");
    reveal_strlit("daemon_reload");
    reveal_strlit("get_default");
    reveal_strlit("repo");
    reveal_strlit("journal");
    reveal_strlit("set_default");
    reveal_strlit("isolate");
    reveal_strlit("is_system_running");
    reveal_strlit("shutdown");
    assert("start"@.len() == 5 && "start"@[0] == 's' && "start"@[1] == 't' && "start"@[2] == 'a' && "start"@[3] == 'r' && "start"@[4] == 't');
    assert("stop"@.len() == 4 && "stop"@[0] == 's' && "stop"@[1] == 't' && "stop"@[2] == 'o' && "stop"@[3] == 'p');
    assert("restart"@.len() == 7 && "restart"@[0] == 'r' && "restart"@[1] == 'e' && "restart"@[2] == 's' && "restart"@[3] == 't' && "restart"@[4] == 'a' && "restart"@[5] == 'r');
    assert("try_restart"@.len() == 11 && "try_restart"@[0] == 't' && "try_restart"@[1] == 'r' && "try_restart"@[2] == 'y' && "try_restart"@[3] == '_' && "try_restart"@[4] == 'r' && "try_restart"@[5] == 'e');
    assert("reload"@.len() == 6 && "reload"@[0] == 'r' && "reload"@[1] == 'e' && "reload"@[2] == 'l' && "reload"@[3] == 'o' && "reload"@[4] == 'a' && "reload"@[5] == 'd');
    assert("reset_failed"@.len() == 12 && "reset_failed"@[0] == 'r' && "reset_failed"@[1] == 'e' && "reset_failed"@[2] == 's' && "reset_failed"@[3] == 'e' && "reset_failed"@[4] == 't' && "reset_failed"@[5] == '_');
    assert("clean"@.len() == 5 && "clean"@[0] == 'c' && "clean"@[1] == 'l' && "clean"@[2] == 'e' && "clean"@[3] == 'a' && "clean"@[4] == 'n');
    assert("status"@.len() == 6 && "status"@[0] == 's' && "status"@[1] == 't' && "status"@[2] == 'a' && "status"@[3] == 't' && "status"@[4] == 'u' && "status"@[5] == 's');
    assert("is_active"@.len() == 9 && "is_active"@[0] == 'i' && "is_active"@[1] == 's' && "is_active"@[2] == '_' && "is_active"@[3] == 'a' && "is_active"@[4] == 'c' && "is_active"@[5] == 't');
    assert("is_failed"@.len() == 9 && "is_failed"@[0] == 'i' && "is_failed"@[1] == 's' && "is_failed"@[2] == '_' && "is_failed"@[3] == 'f' && "is_failed"@[4] == 'a' && "is_failed"@[5] == 'i');
    assert("cat"@.len() == 3 && "cat"@[0] == 'c' && "cat"@[1] == 'a' && "cat"@[2] == 't');
    assert("enable"@.len() == 6 && "enable"@[0] == 'e' && "enable"@[1] == 'n' && "enable"@[2] == 'a' && "enable"@[3] == 'b' && "enable"@[4] == 'l' && "enable"@[5] == 'e');
    assert("disable"@.len() == 7 && "disable"@[0] == 'd' && "disable"@[1] == 'i' && "disable"@[2] == 's' && "disable"@[3] == 'a' && "disable"@[4] == 'b' && "disable"@[5] == 'l');
    assert("mask"@.len() == 4 && "mask"@[0] == 'm' && "mask"@[1] == 'a' && "mask"@[2] == 's' && "mask"@[3] == 'k');
    assert("unmask"@.len() == 6 && "unmask"@[0] == 'u' && "unmask"@[1] == 'n' && "unmask"@[2] == 'm' && "unmask"@[3] == 'a' && "unmask"@[4] == 's' && "unmask"@[5] == 'k');
    assert("reenable"@.len() == 8 && "reenable"@[0] == 'r' && "reenable"@[1] == 'e' && "reenable"@[2] == 'e' && "reenable"@[3] == 'n' && "reenable"@[4] == 'a' && "reenable"@[5] == 'b');
    assert("is_enabled"@.len() == 10 && "is_enabled"@[0] == 'i' && "is_enabled"@[1] == 's' && "is_enabled"@[2] == '_' && "is_enabled"@[3] == 'e' && "is_enabled"@[4] == 'n' && "is_enabled"@[5] == 'a');
    assert("kill"@.len() == 4 && "kill"@[0] == 'k' && "kill"@[1] == 'i' && "kill"@[2] == 'l' && "kill"@[3] == 'l');
    assert("list_dependencies"@.len() == 17 && "list_dependencies"@[0] == 'l' && "list_dependencies"@[1] == 'i' && "list_dependencies"@[2] == 's' && "list_dependencies"@[3] == 't' && "list_dependencies"@[4] == '_' && "list_dependencies"@[5] == 'd');
    assert("list_units"@.len() == 10 && "list_units"@[0] == 'l' && "list_units"@[1] == 'i' && "list_units"@[2] == 's' && "list_units"@[3] == 't' && "list_units"@[4] == '_' && "list_units"@[5] == 'u');
    assert("list_unit_files"@.len() == 15 && "list_unit_files"@[0] == 'l' && "list_unit_files"@[1] == 'i' && "list_unit_files"@[2] == 's' && "list_unit_files"@[3] == 't' && "list_unit_files"@[4] == '_' && "list_unit_files"@[5] == 'u');
    assert("list_timers"@.len() == 11 && "list_timers"@[0] == 'l' && "list_timers"@[1] == 'i' && "list_timers"@[2] == 's' && "list_timers"@[3] == 't' && "list_timers"@[4] == '_' && "list_timers"@[5] == 't');
    assert("show"@.len() == 4 && "show"@[0] == 's' && "show"@[1] == 'h' && "show"@[2] == 'o' && "show"@[3] == 'w');
    assert("daemon_reload"@.len() == 13 && "daemon_reload"@[0] == 'd' && "daemon_reload"@[1] == 'a' && "daemon_reload"@[2] == 'e' && "daemon_reload"@[3] == 'm' && "daemon_reload"@[4] == 'o' && "daemon_reload"@[5] == 'n');
    assert("get_default"@.len() == 11 && "get_default"@[0] == 'g' && "get_default"@[1] == 'e' && "get_default"@[2] == 't' && "get_default"@[3] == '_' && "get_default"@[4] == 'd' && "get_default"@[5] == 'e');
    assert("repo"@.len() == 4 && "repo"@[0] == 'r' && "repo"@[1] == 'e' && "repo"@[2] == 'p' && "repo"@[3] == 'o');
    assert("journal"@.len() == 7 && "journal"@[0] == 'j' && "journal"@[1] == 'o' && "journal"@[2] == 'u' && "journal"@[3] == 'r' && "journal"@[4] == 'n' && "journal"@[5] == 'a');
    assert("set_default"@.len() == 11 && "set_default"@[0] == 's' && "set_default"@[1] == 'e' && "set_default"@[2] == 't' && "set_default"@[3] == '_' && "set_default"@[4] == 'd' && "set_default"@[5] == 'e');
    assert("isolate"@.len() == 7 && "isolate"@[0] == 'i' && "isolate"@[1] == 's' && "isolate"@[2] == 'o' && "isolate"@[3] == 'l' && "isolate"@[4] == 'a' && "isolate"@[5] == 't');
    assert("is_system_running"@.len() == 17 && "is_system_running"@[0] == 'i' && "is_system_running"@[1] == 's' && "is_system_running"@[2] == '_' && "is_system_running"@[3] == 's' && "is_system_running"@[4] == 'y' && "is_system_running"@[5] == 's');
    assert("shutdown"@.len() == 8 && "shutdown"@[0] == 's' && "shutdown"@[1] == 'h' && "shutdown"@[2] == 'u' && "shutdown"@[3] == 't' && "shutdown"@[4] == 'd' && "shutdown"@[5] == 'o');
}

// ---- requests -------------------------------------------------------------------

/// Does the object ask for an operation of this name?
pub open spec fn asks(m: Map<Text, Json>, op: Text) -> bool {
    m.contains_key("op"@) && m["op"@] == Json::Str(op)
}

/// A request without an operation's name, or with one that there is none of, is
/// refused.
pub proof fn requests_name_an_operation(m: Map<Text, Json>, op: Text)
    ensures
        !m.contains_key("op"@) ==> asked(Json::Obj(m)) is Err,
        asks(m, op) && units_op_of(op) is None && op != "kill"@ && op != "list_dependencies"@ && op != "list_units"@ && op != "list_unit_files"@ && op != "list_timers"@ && op != "show"@ && op != "daemon_reload"@ && op != "get_default"@ && op != "repo"@ && op != "journal"@ && op != "set_default"@ && op != "isolate"@ && op != "is_system_running"@ && op != "shutdown"@ ==> asked(
            Json::Obj(m),
        ) == Err::<Asked, Text>("unknown op `"@ + op + "`"@),
{
}

/// The list of units is that of the member `units`; without it there are none.
pub proof fn units_are_listed(m: Map<Text, Json>, v: Seq<Text>)
    ensures
        m.contains_key("units"@) && m["units"@] == text_array(v) ==> requested_units(Json::Obj(m))
            == all_normalized(v),
        !m.contains_key("units"@) ==> requested_units(Json::Obj(m)).len() == 0,
        all_normalized(v).len() == v.len(),
        forall|i: int| 0 <= i < v.len() ==> #[trigger] all_normalized(v)[i] == normalized(v[i]),
{
    strings_in_text_array(v);
}

/// Each operation on units is asked for under its own name, with the units that
/// are listed.
#[verifier::spinoff_prover]
#[verifier::rlimit(60)]
pub proof fn operations_on_units_are_asked_for(m: Map<Text, Json>, v: Seq<Text>)
    requires
        m.contains_key("units"@),
        m["units"@] == text_array(v),
    ensures
        asks(m, "start"@) ==> asked(Json::Obj(m)) == Ok::<Asked, Text>(
            Asked::Units(UnitsOp::Start, all_normalized(v)),
        ),
        asks(m, "stop"@) ==> asked(Json::Obj(m)) == Ok::<Asked, Text>(
            Asked::Units(UnitsOp::Stop, all_normalized(v)),
        ),
        asks(m, "restart"@) ==> asked(Json::Obj(m)) == Ok::<Asked, Text>(
            Asked::Units(UnitsOp::Restart, all_normalized(v)),
        ),
        asks(m, "try_restart"@) ==> asked(Json::Obj(m)) == Ok::<Asked, Text>(
            Asked::Units(UnitsOp::TryRestart, all_normalized(v)),
        ),
        asks(m, "reload"@) ==> asked(Json::Obj(m)) == Ok::<Asked, Text>(
            Asked::Units(UnitsOp::Reload, all_normalized(v)),
        ),
        asks(m, "reset_failed"@) ==> asked(Json::Obj(m)) == Ok::<Asked, Text>(
            Asked::Units(UnitsOp::ResetFailed, all_normalized(v)),
        ),
        asks(m, "clean"@) ==> asked(Json::Obj(m)) == Ok::<Asked, Text>(
            Asked::Units(UnitsOp::Clean, all_normalized(v)),
        ),
        asks(m, "status"@) ==> asked(Json::Obj(m)) == Ok::<Asked, Text>(
            Asked::Units(UnitsOp::Status, all_normalized(v)),
        ),
        asks(m, "is_active"@) ==> asked(Json::Obj(m)) == Ok::<Asked, Text>(
            Asked::Units(UnitsOp::IsActive, all_normalized(v)),
        ),
        asks(m, "is_failed"@) ==> asked(Json::Obj(m)) == Ok::<Asked, Text>(
            Asked::Units(UnitsOp::IsFailed, all_normalized(v)),
        ),
        asks(m, "cat"@) ==> asked(Json::Obj(m)) == Ok::<Asked, Text>(
            Asked::Units(UnitsOp::Cat, all_normalized(v)),
        ),
        asks(m, "enable"@) ==> asked(Json::Obj(m)) == Ok::<Asked, Text>(
            Asked::Units(UnitsOp::Enable, all_normalized(v)),
        ),
        asks(m, "disable"@) ==> asked(Json::Obj(m)) == Ok::<Asked, Text>(
            Asked::Units(UnitsOp::Disable, all_normalized(v)),
        ),
        asks(m, "mask"@) ==> asked(Json::Obj(m)) == Ok::<Asked, Text>(
            Asked::Units(UnitsOp::Mask, all_normalized(v)),
        ),
        asks(m, "unmask"@) ==> asked(Json::Obj(m)) == Ok::<Asked, Text>(
            Asked::Units(UnitsOp::Unmask, all_normalized(v)),
        ),
        asks(m, "reenable"@) ==> asked(Json::Obj(m)) == Ok::<Asked, Text>(
            Asked::Units(UnitsOp::Reenable, all_normalized(v)),
        ),
        asks(m, "is_enabled"@) ==> asked(Json::Obj(m)) == Ok::<Asked, Text>(
            Asked::Units(UnitsOp::IsEnabled, all_normalized(v)),
        ),
{
    units_are_listed(m, v);
    if asks(m, "start"@) {
        operations_have_these_names(UnitsOp::Start, "start"@);
    }
    if asks(m, "stop"@) {
        operations_have_these_names(UnitsOp::Stop, "stop"@);
    }
    if asks(m, "restart"@) {
        operations_have_these_names(UnitsOp::Restart, "restart"@);
    }
    if asks(m, "try_restart"@) {
        operations_have_these_names(UnitsOp::TryRestart, "try_restart"@);
    }
    if asks(m, "reload"@) {
        operations_have_these_names(UnitsOp::Reload, "reload"@);
    }
    if asks(m, "reset_failed"@) {
        operations_have_these_names(UnitsOp::ResetFailed, "reset_failed"@);
    }
    if asks(m, "clean"@) {
        operations_have_these_names(UnitsOp::Clean, "clean"@);
    }
    if asks(m, "status"@) {
        operations_have_these_names(UnitsOp::Status, "status"@);
    }
    if asks(m, "is_active"@) {
        operations_have_these_names(UnitsOp::IsActive, "is_active"@);
    }
    if asks(m, "is_failed"@) {
        operations_have_these_names(UnitsOp::IsFailed, "is_failed"@);
    }
    if asks(m, "cat"@) {
        operations_have_these_names(UnitsOp::Cat, "cat"@);
    }
    if asks(m, "enable"@) {
        operations_have_these_names(UnitsOp::Enable, "enable"@);
    }
    if asks(m, "disable"@) {
        operations_have_these_names(UnitsOp::Disable, "disable"@);
    }
    if asks(m, "mask"@) {
        operations_have_these_names(UnitsOp::Mask, "mask"@);
    }
    if asks(m, "unmask"@) {
        operations_have_these_names(UnitsOp::Unmask, "unmask"@);
    }
    if asks(m, "reenable"@) {
        operations_have_these_names(UnitsOp::Reenable, "reenable"@);
    }
    if asks(m, "is_enabled"@) {
        operations_have_these_names(UnitsOp::IsEnabled, "is_enabled"@);
    }
}

/// The operations without arguments.
#[verifier::spinoff_prover]
#[verifier::rlimit(60)]
pub proof fn plain_operations_are_asked_for(m: Map<Text, Json>)
    ensures
        asks(m, "list_unit_files"@) ==> asked(Json::Obj(m)) == Ok::<Asked, Text>(Asked::ListUnitFiles),
        asks(m, "list_timers"@) ==> asked(Json::Obj(m)) == Ok::<Asked, Text>(Asked::ListTimers),
        asks(m, "daemon_reload"@) ==> asked(Json::Obj(m)) == Ok::<Asked, Text>(Asked::DaemonReload),
        asks(m, "get_default"@) ==> asked(Json::Obj(m)) == Ok::<Asked, Text>(Asked::GetDefault),
        asks(m, "repo"@) ==> asked(Json::Obj(m)) == Ok::<Asked, Text>(Asked::Repo),
        asks(m, "is_system_running"@) ==> asked(Json::Obj(m)) == Ok::<Asked, Text>(Asked::IsSystemRunning),
        asks(m, "shutdown"@) ==> asked(Json::Obj(m)) == Ok::<Asked, Text>(Asked::Shutdown),
{
    if asks(m, "list_unit_files"@) {
        other_operations_are_others("list_unit_files"@);
    }
    if asks(m, "list_timers"@) {
        other_operations_are_others("list_timers"@);
    }
    if asks(m, "daemon_reload"@) {
        other_operations_are_others("daemon_reload"@);
    }
    if asks(m, "get_default"@) {
        other_operations_are_others("get_default"@);
    }
    if asks(m, "repo"@) {
        other_operations_are_others("repo"@);
    }
    if asks(m, "is_system_running"@) {
        other_operations_are_others("is_system_running"@);
    }
    if asks(m, "shutdown"@) {
        other_operations_are_others("shutdown"@);
    }
    reveal_strlit("kill");
    reveal_strlit("list_dependencies");
    reveal_strlit("list_units");
    reveal_strlit("list_unit_files");
    reveal_strlit("list_timers");
    reveal_strlit("show");
    reveal_strlit("daemon_reload");
    reveal_strlit("get_default");
    reveal_strlit("repo");
    reveal_strlit("journal");
    reveal_strlit("set_default");
    reveal_strlit("isolate");
    reveal_strlit("is_system_running");
    reveal_strlit("shutdown");
    assert("kill"@.len() == 4 && "kill"@[0] == 'k' && "kill"@[1] == 'i' && "kill"@[2] == 'l' && "kill"@[3] == 'l');
    assert("list_dependencies"@.len() == 17 && "list_dependencies"@[0] == 'l' && "list_dependencies"@[1] == 'i' && "list_dependencies"@[2] == 's' && "list_dependencies"@[3] == 't' && "list_dependencies"@[4] == '_' && "list_dependencies"@[5] == 'd');
    assert("list_units"@.len() == 10 && "list_units"@[0] == 'l' && "list_units"@[1] == 'i' && "list_units"@[2] == 's' && "list_units"@[3] == 't' && "list_units"@[4] == '_' && "list_units"@[5] == 'u');
    assert("list_unit_files"@.len() == 15 && "list_unit_files"@[0] == 'l' && "list_unit_files"@[1] == 'i' && "list_unit_files"@[2] == 's' && "list_unit_files"@[3] == 't' && "list_unit_files"@[4] == '_' && "list_unit_files"@[5] == 'u');
    assert("list_timers"@.len() == 11 && "list_timers"@[0] == 'l' && "list_timers"@[1] == 'i' && "list_timers"@[2] == 's' && "list_timers"@[3] == 't' && "list_timers"@[4] == '_' && "list_timers"@[5] == 't');
    assert("show"@.len() == 4 && "show"@[0] == 's' && "show"@[1] == 'h' && "show"@[2] == 'o' && "show"@[3] == 'w');
    assert("daemon_reload"@.len() == 13 && "daemon_reload"@[0] == 'd' && "daemon_reload"@[1] == 'a' && "daemon_reload"@[2] == 'e' && "daemon_reload"@[3] == 'm' && "daemon_reload"@[4] == 'o' && "daemon_reload"@[5] == 'n');
    assert("get_default"@.len() == 11 && "get_default"@[0] == 'g' && "get_default"@[1] == 'e' && "get_default"@[2] == 't' && "get_default"@[3] == '_' && "get_default"@[4] == 'd' && "get_default"@[5] == 'e');
    assert("repo"@.len() == 4 && "repo"@[0] == 'r' && "repo"@[1] == 'e' && "repo"@[2] == 'p' && "repo"@[3] == 'o');
    assert("journal"@.len() == 7 && "journal"@[0] == 'j' && "journal"@[1] == 'o' && "journal"@[2] == 'u' && "journal"@[3] == 'r' && "journal"@[4] == 'n' && "journal"@[5] == 'a');
    assert("set_default"@.len() == 11 && "set_default"@[0] == 's' && "set_default"@[1] == 'e' && "set_default"@[2] == 't' && "set_default"@[3] == '_' && "set_default"@[4] == 'd' && "set_default"@[5] == 'e');
    assert("isolate"@.len() == 7 && "isolate"@[0] == 'i' && "isolate"@[1] == 's' && "isolate"@[2] == 'o' && "isolate"@[3] == 'l' && "isolate"@[4] == 'a' && "isolate"@[5] == 't');
    assert("is_system_running"@.len() == 17 && "is_system_running"@[0] == 'i' && "is_system_running"@[1] == 's' && "is_system_running"@[2] == '_' && "is_system_running"@[3] == 's' && "is_system_running"@[4] == 'y' && "is_system_running"@[5] == 's');
    assert("shutdown"@.len() == 8 && "shutdown"@[0] == 's' && "shutdown"@[1] == 'h' && "shutdown"@[2] == 'u' && "shutdown"@[3] == 't' && "shutdown"@[4] == 'd' && "shutdown"@[5] == 'o');
}

/// Killing is asked of the first unit that is listed, with the signal that is
/// named, or with signal 15.
pub proof fn kill_is_asked_for(m: Map<Text, Json>, v: Seq<Text>, s: Text)
    requires
        asks(m, "kill"@),
        m.contains_key("units"@),
        m["units"@] == text_array(v),
    ensures
        v.len() == 0 ==> asked(Json::Obj(m)) is Err,
        v.len() > 0 && !m.contains_key("signal"@) ==> asked(Json::Obj(m)) == Ok::<Asked, Text>(
            Asked::Kill(normalized(v[0]), 15),
        ),
        v.len() > 0 && m.contains_key("signal"@) && m["signal"@] == Json::Str(s) && signal_of(s)
            is Some ==> asked(Json::Obj(m)) == Ok::<Asked, Text>(
            Asked::Kill(normalized(v[0]), signal_of(s)->0),
        ),
        v.len() > 0 && m.contains_key("signal"@) && m["signal"@] == Json::Str(s) && signal_of(s)
            is None ==> asked(Json::Obj(m)) == Err::<Asked, Text>("unknown signal `"@ + s + "`"@),
{
    other_operations_are_others("kill"@);
    units_are_listed(m, v);
}

/// The dependencies of the named unit are asked for, reverse ones only where the
/// request says so.
pub proof fn dependencies_are_asked_for(m: Map<Text, Json>, n: Text, reverse: bool)
    requires
        asks(m, "list_dependencies"@),
    ensures
        !m.contains_key("name"@) ==> asked(Json::Obj(m)) is Err,
        m.contains_key("name"@) && m["name"@] == Json::Str(n) && !m.contains_key("reverse"@)
            ==> asked(Json::Obj(m)) == Ok::<Asked, Text>(Asked::ListDependencies(n, false)),
        m.contains_key("name"@) && m["name"@] == Json::Str(n) && m.contains_key("reverse"@)
            && m["reverse"@] == Json::Bool(reverse) ==> asked(Json::Obj(m)) == Ok::<Asked, Text>(
            Asked::ListDependencies(n, reverse),
        ),
{
    other_operations_are_others("list_dependencies"@);
    reveal_strlit("kill");
    reveal_strlit("list_dependencies");
    assert("kill"@.len() == 4 && "kill"@[0] == 'k' && "kill"@[1] == 'i' && "kill"@[2] == 'l' && "kill"@[3] == 'l');
    assert("list_dependencies"@.len() == 17 && "list_dependencies"@[0] == 'l' && "list_dependencies"@[1] == 'i' && "list_dependencies"@[2] == 's' && "list_dependencies"@[3] == 't' && "list_dependencies"@[4] == '_' && "list_dependencies"@[5] == 'd');
}

/// The filters of `list-units` are those of the request, and there are none where
/// it has none.
pub proof fn listing_is_asked_for(m: Map<Text, Json>, types: Seq<Text>, s: Text, p: Text)
    requires
        asks(m, "list_units"@),
    ensures
        asked(Json::Obj(m)) is Ok,
        asked(Json::Obj(m))->Ok_0 is ListUnits,
        m.contains_key("types"@) && m["types"@] == text_array(types)
            ==> asked(Json::Obj(m))->Ok_0->ListUnits_0 == types,
        !m.contains_key("types"@) ==> asked(Json::Obj(m))->Ok_0->ListUnits_0.len() == 0,
        m.contains_key("state"@) && m["state"@] == Json::Str(s)
            ==> asked(Json::Obj(m))->Ok_0->ListUnits_1 == Some(s),
        !m.contains_key("state"@) ==> asked(Json::Obj(m))->Ok_0->ListUnits_1 is None,
        m.contains_key("pattern"@) && m["pattern"@] == Json::Str(p)
            ==> asked(Json::Obj(m))->Ok_0->ListUnits_2 == Some(p),
        !m.contains_key("pattern"@) ==> asked(Json::Obj(m))->Ok_0->ListUnits_2 is None,
{
    other_operations_are_others("list_units"@);
    strings_in_text_array(types);
    reveal_strlit("kill");
    reveal_strlit("list_dependencies");
    reveal_strlit("list_units");
    assert("kill"@.len() == 4 && "kill"@[0] == 'k' && "kill"@[1] == 'i' && "kill"@[2] == 'l' && "kill"@[3] == 'l');
    assert("list_dependencies"@.len() == 17 && "list_dependencies"@[0] == 'l' && "list_dependencies"@[1] == 'i' && "list_dependencies"@[2] == 's' && "list_dependencies"@[3] == 't' && "list_dependencies"@[4] == '_' && "list_dependencies"@[5] == 'd');
    assert("list_units"@.len() == 10 && "list_units"@[0] == 'l' && "list_units"@[1] == 'i' && "list_units"@[2] == 's' && "list_units"@[3] == 't' && "list_units"@[4] == '_' && "list_units"@[5] == 'u');
}

/// `show` is asked for with the properties that are listed.
pub proof fn properties_are_asked_for(m: Map<Text, Json>, v: Seq<Text>, props: Seq<Text>)
    requires
        asks(m, "show"@),
        m.contains_key("units"@),
        m["units"@] == text_array(v),
    ensures
        m.contains_key("properties"@) && m["properties"@] == text_array(props) ==> asked(
            Json::Obj(m),
        ) == Ok::<Asked, Text>(Asked::Show(all_normalized(v), props)),
        !m.contains_key("properties"@) ==> asked(Json::Obj(m)) is Ok
            && asked(Json::Obj(m))->Ok_0 is Show && asked(Json::Obj(m))->Ok_0->Show_0
            == all_normalized(v) && asked(Json::Obj(m))->Ok_0->Show_1.len() == 0,
{
    other_operations_are_others("show"@);
    units_are_listed(m, v);
    strings_in_text_array(props);
    reveal_strlit("kill");
    reveal_strlit("list_dependencies");
    reveal_strlit("list_units");
    reveal_strlit("list_unit_files");
    reveal_strlit("list_timers");
    reveal_strlit("show");
    assert("kill"@.len() == 4 && "kill"@[0] == 'k' && "kill"@[1] == 'i' && "kill"@[2] == 'l' && "kill"@[3] == 'l');
    assert("list_dependencies"@.len() == 17 && "list_dependencies"@[0] == 'l' && "list_dependencies"@[1] == 'i' && "list_dependencies"@[2] == 's' && "list_dependencies"@[3] == 't' && "list_dependencies"@[4] == '_' && "list_dependencies"@[5] == 'd');
    assert("list_units"@.len() == 10 && "list_units"@[0] == 'l' && "list_units"@[1] == 'i' && "list_units"@[2] == 's' && "list_units"@[3] == 't' && "list_units"@[4] == '_' && "list_units"@[5] == 'u');
    assert("list_unit_files"@.len() == 15 && "list_unit_files"@[0] == 'l' && "list_unit_files"@[1] == 'i' && "list_unit_files"@[2] == 's' && "list_unit_files"@[3] == 't' && "list_unit_files"@[4] == '_' && "list_unit_files"@[5] == 'u');
    assert("list_timers"@.len() == 11 && "list_timers"@[0] == 'l' && "list_timers"@[1] == 'i' && "list_timers"@[2] == 's' && "list_timers"@[3] == 't' && "list_timers"@[4] == '_' && "list_timers"@[5] == 't');
    assert("show"@.len() == 4 && "show"@[0] == 's' && "show"@[1] == 'h' && "show"@[2] == 'o' && "show"@[3] == 'w');
}

/// The journal is asked for by unit, time and number of lines, each from the member
/// of its name.
pub proof fn journal_is_asked_for(m: Map<Text, Json>, u: Text, since: u64, tail: u64)
    requires
        asks(m, "journal"@),
    ensures
        asked(Json::Obj(m)) is Ok,
        asked(Json::Obj(m))->Ok_0 is Journal,
        m.contains_key("unit"@) && m["unit"@] == Json::Str(u)
            ==> asked(Json::Obj(m))->Ok_0->Journal_0 == Some(u),
        !m.contains_key("unit"@) ==> asked(Json::Obj(m))->Ok_0->Journal_0 is None,
        m.contains_key("since"@) && m["since"@] == Json::Int(since as int)
            ==> asked(Json::Obj(m))->Ok_0->Journal_1 == Some(since),
        !m.contains_key("since"@) ==> asked(Json::Obj(m))->Ok_0->Journal_1 is None,
        m.contains_key("tail"@) && m["tail"@] == Json::Int(tail as int)
            ==> asked(Json::Obj(m))->Ok_0->Journal_2 == Some(tail),
        !m.contains_key("tail"@) ==> asked(Json::Obj(m))->Ok_0->Journal_2 is None,
{
    other_operations_are_others("journal"@);
    reveal_strlit("kill");
    reveal_strlit("list_dependencies");
    reveal_strlit("list_units");
    reveal_strlit("list_unit_files");
    reveal_strlit("list_timers");
    reveal_strlit("show");
    reveal_strlit("daemon_reload");
    reveal_strlit("get_default");
    reveal_strlit("repo");
    reveal_strlit("journal");
    assert("kill"@.len() == 4 && "kill"@[0] == 'k' && "kill"@[1] == 'i' && "kill"@[2] == 'l' && "kill"@[3] == 'l');
    assert("list_dependencies"@.len() == 17 && "list_dependencies"@[0] == 'l' && "list_dependencies"@[1] == 'i' && "list_dependencies"@[2] == 's' && "list_dependencies"@[3] == 't' && "list_dependencies"@[4] == '_' && "list_dependencies"@[5] == 'd');
    assert("list_units"@.len() == 10 && "list_units"@[0] == 'l' && "list_units"@[1] == 'i' && "list_units"@[2] == 's' && "list_units"@[3] == 't' && "list_units"@[4] == '_' && "list_units"@[5] == 'u');
    assert("list_unit_files"@.len() == 15 && "list_unit_files"@[0] == 'l' && "list_unit_files"@[1] == 'i' && "list_unit_files"@[2] == 's' && "list_unit_files"@[3] == 't' && "list_unit_files"@[4] == '_' && "list_unit_files"@[5] == 'u');
    assert("list_timers"@.len() == 11 && "list_timers"@[0] == 'l' && "list_timers"@[1] == 'i' && "list_timers"@[2] == 's' && "list_timers"@[3] == 't' && "list_timers"@[4] == '_' && "list_timers"@[5] == 't');
    assert("show"@.len() == 4 && "show"@[0] == 's' && "show"@[1] == 'h' && "show"@[2] == 'o' && "show"@[3] == 'w');
    assert("daemon_reload"@.len() == 13 && "daemon_reload"@[0] == 'd' && "daemon_reload"@[1] == 'a' && "daemon_reload"@[2] == 'e' && "daemon_reload"@[3] == 'm' && "daemon_reload"@[4] == 'o' && "daemon_reload"@[5] == 'n');
    assert("get_default"@.len() == 11 && "get_default"@[0] == 'g' && "get_default"@[1] == 'e' && "get_default"@[2] == 't' && "get_default"@[3] == '_' && "get_default"@[4] == 'd' && "get_default"@[5] == 'e');
    assert("repo"@.len() == 4 && "repo"@[0] == 'r' && "repo"@[1] == 'e' && "repo"@[2] == 'p' && "repo"@[3] == 'o');
    assert("journal"@.len() == 7 && "journal"@[0] == 'j' && "journal"@[1] == 'o' && "journal"@[2] == 'u' && "journal"@[3] == 'r' && "journal"@[4] == 'n' && "journal"@[5] == 'a');
}

/// `set-default` and `isolate` are asked for with a name, and refused without one.
pub proof fn names_are_asked_for(m: Map<Text, Json>, n: Text)
    ensures
        asks(m, "set_default"@) && m.contains_key("name"@) && m["name"@] == Json::Str(n) ==> asked(
            Json::Obj(m),
        ) == Ok::<Asked, Text>(Asked::SetDefault(n)),
        asks(m, "set_default"@) && !m.contains_key("name"@) ==> asked(Json::Obj(m)) is Err,
        asks(m, "isolate"@) && m.contains_key("name"@) && m["name"@] == Json::Str(n) ==> asked(
            Json::Obj(m),
        ) == Ok::<Asked, Text>(Asked::Isolate(n)),
        asks(m, "isolate"@) && !m.contains_key("name"@) ==> asked(Json::Obj(m)) is Err,
{
    other_operations_are_others("set_default"@);
    other_operations_are_others("isolate"@);
    reveal_strlit("kill");
    reveal_strlit("list_dependencies");
    reveal_strlit("list_units");
    reveal_strlit("list_unit_files");
    reveal_strlit("list_timers");
    reveal_strlit("show");
    reveal_strlit("daemon_reload");
    reveal_strlit("get_default");
    reveal_strlit("repo");
    reveal_strlit("journal");
    reveal_strlit("set_default");
    reveal_strlit("isolate");
    assert("kill"@.len() == 4 && "kill"@[0] == 'k' && "kill"@[1] == 'i' && "kill"@[2] == 'l' && "kill"@[3] == 'l');
    assert("list_dependencies"@.len() == 17 && "list_dependencies"@[0] == 'l' && "list_dependencies"@[1] == 'i' && "list_dependencies"@[2] == 's' && "list_dependencies"@[3] == 't' && "list_dependencies"@[4] == '_' && "list_dependencies"@[5] == 'd');
    assert("list_units"@.len() == 10 && "list_units"@[0] == 'l' && "list_units"@[1] == 'i' && "list_units"@[2] == 's' && "list_units"@[3] == 't' && "list_units"@[4] == '_' && "list_units"@[5] == 'u');
    assert("list_unit_files"@.len() == 15 && "list_unit_files"@[0] == 'l' && "list_unit_files"@[1] == 'i' && "list_unit_files"@[2] == 's' && "list_unit_files"@[3] == 't' && "list_unit_files"@[4] == '_' && "list_unit_files"@[5] == 'u');
    assert("list_timers"@.len() == 11 && "list_timers"@[0] == 'l' && "list_timers"@[1] == 'i' && "list_timers"@[2] == 's' && "list_timers"@[3] == 't' && "list_timers"@[4] == '_' && "list_timers"@[5] == 't');
    assert("show"@.len() == 4 && "show"@[0] == 's' && "show"@[1] == 'h' && "show"@[2] == 'o' && "show"@[3] == 'w');
    assert("daemon_reload"@.len() == 13 && "daemon_reload"@[0] == 'd' && "daemon_reload"@[1] == 'a' && "daemon_reload"@[2] == 'e' && "daemon_reload"@[3] == 'm' && "daemon_reload"@[4] == 'o' && "daemon_reload"@[5] == 'n');
    assert("get_default"@.len() == 11 && "get_default"@[0] == 'g' && "get_default"@[1] == 'e' && "get_default"@[2] == 't' && "get_default"@[3] == '_' && "get_default"@[4] == 'd' && "get_default"@[5] == 'e');
    assert("repo"@.len() == 4 && "repo"@[0] == 'r' && "repo"@[1] == 'e' && "repo"@[2] == 'p' && "repo"@[3] == 'o');
    assert("journal"@.len() == 7 && "journal"@[0] == 'j' && "journal"@[1] == 'o' && "journal"@[2] == 'u' && "journal"@[3] == 'r' && "journal"@[4] == 'n' && "journal"@[5] == 'a');
    assert("set_default"@.len() == 11 && "set_default"@[0] == 's' && "set_default"@[1] == 'e' && "set_default"@[2] == 't' && "set_default"@[3] == '_' && "set_default"@[4] == 'd' && "set_default"@[5] == 'e');
    assert("isolate"@.len() == 7 && "isolate"@[0] == 'i' && "isolate"@[1] == 's' && "isolate"@[2] == 'o' && "isolate"@[3] == 'l' && "isolate"@[4] == 'a' && "isolate"@[5] == 't');
}

/// A request that was read says what was asked for.
pub proof fn requests_say_what_is_asked(
    op: UnitsOp,
    v: Vec<String>,
    w: Vec<String>,
    n: String,
    g: Signal,
    b: bool,
    s: Option<String>,
    p: Option<String>,
    x: Option<u64>,
    y: Option<u64>,
)
    ensures
        (Request::Units { op, units: v })@ == Asked::Units(op, texts(v@)),
        (Request::Kill { unit: n, signal: g })@ == Asked::Kill(n@, g.raw()),
        (Request::ListDependencies { name: n, reverse: b })@ == Asked::ListDependencies(n@, b),
        (Request::ListUnits { types: v, state: s, pattern: p })@ == Asked::ListUnits(
            texts(v@),
            opt_text(s),
            opt_text(p),
        ),
        (Request::Show { units: v, properties: w })@ == Asked::Show(texts(v@), texts(w@)),
        (Request::Journal { unit: s, since: x, tail: y })@ == Asked::Journal(opt_text(s), x, y),
        (Request::SetDefault { name: n })@ == Asked::SetDefault(n@),
        (Request::Isolate { name: n })@ == Asked::Isolate(n@),
        Request::ListUnitFiles@ is ListUnitFiles,
        Request::ListTimers@ is ListTimers,
        Request::DaemonReload@ is DaemonReload,
        Request::GetDefault@ is GetDefault,
        Request::Repo@ is Repo,
        Request::IsSystemRunning@ is IsSystemRunning,
        Request::Shutdown@ is Shutdown,
{
}

// ---- what is done ---------------------------------------------------------------

/// Each operation that changes something leads to its own work, on the units that
/// were named; none of them is answered at once.
pub proof fn operations_lead_to_their_work(
    units: Map<Text, Unit>,
    roots: Seq<Text>,
    names: Seq<Text>,
    n: Text,
    g: int,
    f: Facts,
)
    ensures
        answered(units, roots, Asked::Units(UnitsOp::Start, names), f) == Answered::Perform(
            Todo::Each(SequenceOp::Start, names),
        ),
        answered(units, roots, Asked::Units(UnitsOp::Stop, names), f) == Answered::Perform(
            Todo::Each(SequenceOp::Stop, names),
        ),
        answered(units, roots, Asked::Units(UnitsOp::Restart, names), f) == Answered::Perform(
            Todo::Each(SequenceOp::Restart, names),
        ),
        answered(units, roots, Asked::Units(UnitsOp::TryRestart, names), f) == Answered::Perform(
            Todo::Each(SequenceOp::TryRestart, names),
        ),
        answered(units, roots, Asked::Units(UnitsOp::Reload, names), f) == Answered::Perform(
            Todo::Each(SequenceOp::Reload, names),
        ),
        answered(units, roots, Asked::Units(UnitsOp::Clean, names), f) == Answered::Perform(
            Todo::Clean(names),
        ),
        answered(units, roots, Asked::Units(UnitsOp::Enable, names), f) == Answered::Perform(
            Todo::Enable(names),
        ),
        answered(units, roots, Asked::Units(UnitsOp::Disable, names), f) == Answered::Perform(
            Todo::Disable(names),
        ),
        answered(units, roots, Asked::Units(UnitsOp::Mask, names), f) == Answered::Perform(
            Todo::Mask(names),
        ),
        answered(units, roots, Asked::Units(UnitsOp::Unmask, names), f) == Answered::Perform(
            Todo::Unmask(names),
        ),
        answered(units, roots, Asked::Units(UnitsOp::Reenable, names), f) == Answered::Perform(
            Todo::Reenable(names),
        ),
        answered(units, roots, Asked::Kill(n, g), f) == Answered::Perform(Todo::Kill(n, g)),
        answered(units, roots, Asked::SetDefault(n), f) == Answered::Perform(Todo::SetDefault(n)),
        answered(units, roots, Asked::DaemonReload, f) == Answered::Perform(Todo::LoadAll),
        answered(units, roots, Asked::Shutdown, f) == Answered::Perform(Todo::Shutdown),
        answered(units, roots, Asked::Isolate(n), f) is Perform,
        answered(units, roots, Asked::Isolate(n), f)->Perform_0 is Isolate,
        answered(units, roots, Asked::Isolate(n), f)->Perform_0->Isolate_1 == normalized(n),
{
}

/// Questions are answered at once, and change no unit. Resetting changes those that
/// failed, of the units that were named.
pub proof fn questions_change_nothing(
    units: Map<Text, Unit>,
    names: Seq<Text>,
    q: Asked,
    n: Text,
)
    ensures
        !(q is Units && q->Units_0 == UnitsOp::ResetFailed) ==> units_after(units, q) == units,
        units.contains_key(n) && (forall|i: int|
            0 <= i < names.len() ==> units.contains_key(#[trigger] names[i])) ==> units_after(
            units,
            Asked::Units(UnitsOp::ResetFailed, names),
        )[n] == if names.contains(n) {
            reset(units[n])
        } else {
            units[n]
        },
{
    if units.contains_key(n) && (forall|i: int|
        0 <= i < names.len() ==> units.contains_key(#[trigger] names[i])) {
        resetting_clears_failures(units, names, n);
    }
}

/// Starting, stopping, restarting and reloading do just that to the unit whose turn
/// it is; before a start it is asked whether the unit is masked.
pub proof fn each_operation_does_its_own(names: Seq<Text>, done: nat, units: Map<Text, Unit>)
    requires
        done < names.len(),
    ensures
        upcoming(duties(SequenceOp::Start, names), done, units) == (
            done,
            Next::Check(names[done as int]),
        ),
        stepped(duties(SequenceOp::Start, names), done, Event::Masked(false), units) == (
            done,
            Next::Do(Lifecycle::Start, names[done as int]),
        ),
        upcoming(duties(SequenceOp::Stop, names), done, units) == (
            done,
            Next::Do(Lifecycle::Stop, names[done as int]),
        ),
        upcoming(duties(SequenceOp::Restart, names), done, units) == (
            done,
            Next::Do(Lifecycle::Restart, names[done as int]),
        ),
        upcoming(duties(SequenceOp::Reload, names), done, units) == (
            done,
            Next::Do(Lifecycle::Reload, names[done as int]),
        ),
        units.contains_key(names[done as int]) && units[names[done as int]].active
            == ActiveState::Active ==> upcoming(
            duties(SequenceOp::TryRestart, names),
            done,
            units,
        ) == (done, Next::Do(Lifecycle::Restart, names[done as int])),
        units.contains_key(names[done as int]) && units[names[done as int]].active
            == ActiveState::Inactive ==> upcoming(
            duties(SequenceOp::TryRestart, names),
            done,
            units,
        ) == upcoming(duties(SequenceOp::TryRestart, names), done + 1, units),
{
    reveal_with_fuel(upcoming, 2);
    reveal_with_fuel(doing, 2);
}

/// Once a task is done the next one follows, and after the last one the sequence is
/// at its end.
pub proof fn tasks_are_done_in_order(names: Seq<Text>, done: nat, units: Map<Text, Unit>)
    requires
        done < names.len(),
    ensures
        stepped(duties(SequenceOp::Stop, names), 0, Event::Begin, units) == upcoming(
            duties(SequenceOp::Stop, names),
            0,
            units,
        ),
        done + 1 < names.len() ==> stepped(
            duties(SequenceOp::Stop, names),
            done,
            Event::Done(Ok(())),
            units,
        ) == (done + 1, Next::Do(Lifecycle::Stop, names[done as int + 1])),
        done + 1 == names.len() ==> stepped(
            duties(SequenceOp::Stop, names),
            done,
            Event::Done(Ok(())),
            units,
        ).1 == Next::Finished(Ok::<(), Text>(())),
{
    reveal_with_fuel(upcoming, 2);
    reveal_with_fuel(doing, 2);
}

// ---- what is answered -----------------------------------------------------------

/// A state occurs among units where it does among all but the last, or is that of
/// the last.
proof fn last_is_among(units: Map<Text, Unit>, names: Seq<Text>, s: ActiveState)
    requires
        names.len() > 0,
    ensures
        (exists|i: int| 0 <= i < names.len() && units[#[trigger] names[i]].active == s) <==> ((
        exists|i: int|
            0 <= i < names.drop_last().len() && units[#[trigger] names.drop_last()[i]].active == s)
            || units[names.last()].active == s),
{
    let init = names.drop_last();
    let k = names.len() - 1;
    if exists|i: int| 0 <= i < init.len() && units[#[trigger] init[i]].active == s {
        let i = choose|i: int| 0 <= i < init.len() && units[#[trigger] init[i]].active == s;
        assert(names[i] == init[i]);
    }
    if units[names.last()].active == s {
        assert(names[k] == names.last());
    }
    if exists|i: int| 0 <= i < names.len() && units[#[trigger] names[i]].active == s {
        let i = choose|i: int| 0 <= i < names.len() && units[#[trigger] names[i]].active == s;
        if i < k {
            assert(init[i] == names[i]);
        }
    }
}

proof fn worst_of_states(units: Map<Text, Unit>, names: Seq<Text>)
    ensures
        worst(units, names) == 4 <==> exists|i: int|
            0 <= i < names.len() && units[#[trigger] names[i]].active == ActiveState::Failed,
        worst(units, names) == 3 <==> (exists|i: int|
            0 <= i < names.len() && units[#[trigger] names[i]].active == ActiveState::Inactive) && !(
        exists|i: int|
            0 <= i < names.len() && units[#[trigger] names[i]].active == ActiveState::Failed),
        worst(units, names) == 0 || worst(units, names) == 3 || worst(units, names) == 4,
    decreases names.len(),
{
    if names.len() > 0 {
        let init = names.drop_last();
        worst_of_states(units, init);
        last_is_among(units, names, ActiveState::Failed);
        last_is_among(units, names, ActiveState::Inactive);
    }
}

/// The exit code of `is-active` is 4 where a unit failed, else 3 where one is
/// inactive, else 0; and each unit stands there with its state.
pub proof fn is_active_tells_the_worst(units: Map<Text, Unit>, names: Seq<Text>)
    requires
        first_missing(units, names) is None,
    ensures
        ({
            let j = is_active_reply(units, names)->Ok_0;
            &&& is_active_reply(units, names) is Ok
            &&& member_of(j, "exit"@) == Some(Json::Int(4)) <==> exists|i: int|
                0 <= i < names.len() && units[#[trigger] names[i]].active == ActiveState::Failed
            &&& member_of(j, "exit"@) == Some(Json::Int(3)) <==> (exists|i: int|
                0 <= i < names.len() && units[#[trigger] names[i]].active
                    == ActiveState::Inactive) && !(exists|i: int|
                0 <= i < names.len() && units[#[trigger] names[i]].active == ActiveState::Failed)
            &&& member_of(j, "exit"@) == Some(Json::Int(0)) || member_of(j, "exit"@) == Some(
                Json::Int(3),
            ) || member_of(j, "exit"@) == Some(Json::Int(4))
        }),
{
    reveal_strlit("states");
    reveal_strlit("exit");
    assert("states"@.len() == 6 && "exit"@.len() == 4);
    worst_of_states(units, names);
}

/// The name that is reported missing is the first one that is no unit's.
pub proof fn missing_names_are_reported(units: Map<Text, Unit>, names: Seq<Text>)
    ensures
        first_missing(units, names) is None <==> forall|i: int|
            0 <= i < names.len() ==> units.contains_key(#[trigger] names[i]),
        forall|k: int|
            0 <= k < names.len() && !units.contains_key(#[trigger] names[k]) && (forall|i: int|
                0 <= i < k ==> units.contains_key(#[trigger] names[i])) ==> first_missing(
                units,
                names,
            ) == Some(names[k]),
        forall|n: Text| #[trigger] not_found(n) == "Unit "@ + n + " not found."@,
    decreases names.len(),
{
    if names.len() > 0 {
        let rest = names.skip(1);
        missing_names_are_reported(units, rest);
        if units.contains_key(names[0]) {
            assert forall|k: int|
                0 <= k < names.len() && !units.contains_key(#[trigger] names[k]) && (forall|i: int|
                    0 <= i < k ==> units.contains_key(#[trigger] names[i])) implies first_missing(
                units,
                names,
            ) == Some(names[k]) by {
                assert(rest[k - 1] == names[k]);
                assert forall|i: int| 0 <= i < k - 1 implies units.contains_key(
                    #[trigger] rest[i],
                ) by {
                    assert(rest[i] == names[i + 1]);
                }
            }
            if forall|i: int| 0 <= i < names.len() ==> units.contains_key(#[trigger] names[i]) {
                assert forall|i: int| 0 <= i < rest.len() implies units.contains_key(
                    #[trigger] rest[i],
                ) by {
                    assert(rest[i] == names[i + 1]);
                }
            }
            if forall|i: int| 0 <= i < rest.len() ==> units.contains_key(#[trigger] rest[i]) {
                assert forall|i: int| 0 <= i < names.len() implies units.contains_key(
                    #[trigger] names[i],
                ) by {
                    if i > 0 {
                        assert(names[i] == rest[i - 1]);
                    }
                }
            }
        } else {
            assert forall|k: int|
                0 <= k < names.len() && !units.contains_key(#[trigger] names[k]) && (forall|i: int|
                    0 <= i < k ==> units.contains_key(#[trigger] names[i])) implies first_missing(
                units,
                names,
            ) == Some(names[k]) by {
                if k > 0 {
                    assert(units.contains_key(names[0]));
                }
            }
        }
    }
}

/// `is-failed` holds where all the units failed.
pub proof fn is_failed_asks_all(units: Map<Text, Unit>, names: Seq<Text>)
    requires
        forall|i: int| 0 <= i < names.len() ==> units.contains_key(#[trigger] names[i]),
    ensures
        is_failed_reply(units, names) == Ok::<Json, Text>(
            Json::Arr(
                seq![
                    Json::Bool(
                        forall|i: int|
                            0 <= i < names.len() ==> units[#[trigger] names[i]].active
                                == ActiveState::Failed,
                    ),
                ],
            ),
        ),
    decreases names.len(),
{
    if names.len() > 0 {
        let rest = names.skip(1);
        assert(units.contains_key(names[0]));
        assert forall|i: int| 0 <= i < rest.len() implies units.contains_key(#[trigger] rest[i]) by {
            assert(rest[i] == names[i + 1]);
        }
        is_failed_asks_all(units, rest);
        let all = forall|i: int|
            0 <= i < names.len() ==> units[#[trigger] names[i]].active == ActiveState::Failed;
        let others = forall|i: int|
            0 <= i < rest.len() ==> units[#[trigger] rest[i]].active == ActiveState::Failed;
        if all {
            assert forall|i: int| 0 <= i < rest.len() implies units[#[trigger] rest[i]].active
                == ActiveState::Failed by {
                assert(rest[i] == names[i + 1]);
            }
        }
        if others && units[names[0]].active == ActiveState::Failed {
            assert forall|i: int| 0 <= i < names.len() implies units[#[trigger] names[i]].active
                == ActiveState::Failed by {
                if i > 0 {
                    assert(names[i] == rest[i - 1]);
                }
            }
        }
    }
}

/// The system is degraded where a unit failed, and running where none did.
pub proof fn degraded_systems_have_failures(units: Map<Text, Unit>)
    ensures
        member_of(running_json(is_degraded(units)), "degraded"@) == Some(
            Json::Bool(
                exists|n: Text|
                    #[trigger] units.contains_key(n) && units[n].active == ActiveState::Failed,
            ),
        ),
        member_of(running_json(is_degraded(units)), "running"@) == Some(
            Json::Bool(
                forall|n: Text|
                    #[trigger] units.contains_key(n) ==> units[n].active != ActiveState::Failed,
            ),
        ),
{
    reveal_strlit("running");
    reveal_strlit("degraded");
    assert("running"@.len() == 7 && "degraded"@.len() == 8);
    if is_degraded(units) {
        let n = choose|n: Text|
            #[trigger] units.contains_key(n) && units[n].active == ActiveState::Failed;
        assert(!(units.contains_key(n) ==> units[n].active != ActiveState::Failed));
    }
}

/// The statuses are those of the units that are named, in that order; names that
/// are no unit's are passed over.
pub proof fn statuses_are_told_one_by_one(
    units: Map<Text, Unit>,
    names: Seq<Text>,
    n: Text,
    states: Map<Text, String>,
)
    ensures
        statuses(units, seq![], states).len() == 0,
        !units.contains_key(n) ==> statuses(units, names.push(n), states) == statuses(
            units,
            names,
            states,
        ),
        units.contains_key(n) ==> statuses(units, names.push(n), states).len() == statuses(
            units,
            names,
            states,
        ).len() + 1 && statuses(units, names.push(n), states).last().name == units[n].name@,
        units.contains_key(n) && states.contains_key(n) ==> statuses(
            units,
            names.push(n),
            states,
        ).last().enabled == states[n]@,
{
    assert(names.push(n).drop_last() =~= names);
}

/// A query that names units is about those; one that names none is about all.
pub proof fn queries_are_about_what_they_name(units: Map<Text, Unit>, names: Seq<Text>)
    ensures
        names.len() > 0 ==> query_list(units, names) == names,
        names.len() == 0 ==> query_list(units, names) == sorted_keys(units),
{
}

/// A reply says whether it went well, and brings the data or the error.
pub proof fn replies_say_how_it_went(d: Json, e: Text)
    ensures
        member_of(reply_json(Ok(d)), "ok"@) == Some(Json::Bool(true)),
        member_of(reply_json(Ok(d)), "data"@) == Some(d),
        member_of(reply_json(Ok(d)), "error"@) is None,
        member_of(reply_json(Err(e)), "ok"@) == Some(Json::Bool(false)),
        member_of(reply_json(Err(e)), "error"@) == Some(Json::Str(e)),
        member_of(reply_json(Err(e)), "data"@) is None,
{
    reveal_strlit("ok");
    reveal_strlit("data");
    reveal_strlit("error");
    assert("ok"@.len() == 2 && "data"@.len() == 4 && "error"@.len() == 5);
}

/// Work that brings nothing is answered by null, or by its error; reloading by all
/// the errors that it brought.
pub proof fn finished_work_is_reported(e: Text, errors: Seq<Text>)
    ensures
        plain_reply(Ok(())) == Ok::<Json, Text>(Json::Null),
        plain_reply(Err(e)) == Err::<Json, Text>(e),
        load_reply(errors) is Ok <==> errors.len() == 0,
        errors.len() > 0 ==> load_reply(errors) == Err::<Json, Text>(joined(errors, "; "@)),
{
}

/// The messages of several units stand one behind the other; the first error is the
/// answer.
pub proof fn messages_stand_one_behind_the_other(
    v: Seq<Result<Vec<String>, String>>,
    m: Vec<String>,
    e: String,
)
    requires
        all_messages(v) is Ok,
    ensures
        all_messages(v.push(Ok(m))) == Ok::<Seq<Text>, Text>(all_messages(v)->Ok_0 + texts(m@)),
        all_messages(v.push(Err(e))) == Err::<Seq<Text>, Text>(e@),
        messages_reply(v) == Ok::<Json, Text>(text_array(all_messages(v)->Ok_0)),
{
    assert(v.push(Ok(m)).drop_last() =~= v);
    assert(v.push(Err(e)).drop_last() =~= v);
}

/// A question is answered with what was asked for: the statuses, the states, the files,
/// the enable states, the rows of the lists, the default target, the repository and the
/// lines of the journal.
pub proof fn questions_are_answered(
    units: Map<Text, Unit>,
    roots: Seq<Text>,
    names: Seq<Text>,
    props: Seq<Text>,
    state: Option<Text>,
    pattern: Option<Text>,
    since: Option<u64>,
    tail: Option<u64>,
    f: Facts,
)
    ensures
        answered(units, roots, Asked::Units(UnitsOp::Status, names), f) == Answered::Reply(
            Ok(statuses_json(statuses(units, query_list(units, names), f.states@))),
        ),
        answered(units, roots, Asked::Units(UnitsOp::IsActive, names), f) == Answered::Reply(
            is_active_reply(units, names),
        ),
        answered(units, roots, Asked::Units(UnitsOp::IsFailed, names), f) == Answered::Reply(
            is_failed_reply(units, names),
        ),
        answered(units, roots, Asked::Units(UnitsOp::IsEnabled, names), f) is Reply,
        answered(units, roots, Asked::Units(UnitsOp::IsEnabled, names), f)->Reply_0 == Ok::<
            Json,
            Text,
        >(text_array(Seq::new(names.len(), |i: int| state_in(f.states@, names[i])))),
        cat_entries(units, names, f.read_files@) is Ok ==> answered(
            units,
            roots,
            Asked::Units(UnitsOp::Cat, names),
            f,
        ) == Answered::Reply(
            Ok(cats_json(cat_entries(units, names, f.read_files@)->Ok_0)),
        ),
        first_missing(units, names) is None ==> answered(
            units,
            roots,
            Asked::Units(UnitsOp::ResetFailed, names),
            f,
        ) == Answered::Reply(Ok(Json::Null)),
        first_missing(units, names) is Some ==> answered(
            units,
            roots,
            Asked::Units(UnitsOp::ResetFailed, names),
            f,
        ) == Answered::Reply(Err(not_found(first_missing(units, names)->0))),
        answered(units, roots, Asked::ListUnits(names, state, pattern), f) == Answered::Reply(
            Ok(summaries_json(summaries(units, sorted_keys(units), names, state, pattern))),
        ),
        answered(units, roots, Asked::ListTimers, f) == Answered::Reply(
            Ok(timers_json(timer_infos(units, sorted_keys(units), f.now))),
        ),
        answered(units, roots, Asked::Show(names, props), f) == Answered::Reply(
            Ok(Json::Arr(shown_units(units, query_list(units, names), props, f.states@))),
        ),
        f.default_link is Some ==> answered(units, roots, Asked::GetDefault, f)
            == Answered::Reply(Ok(Json::Str(f.default_link->0@))),
        f.default_link is None ==> answered(units, roots, Asked::GetDefault, f)
            == Answered::Reply(Ok(Json::Str("default.target"@))),
        roots.len() > 0 ==> answered(units, roots, Asked::Repo, f) == Answered::Reply(
            Ok(repo_json(Place { root: roots[0], roots })),
        ),
{
}

/// The lines of the journal are answered with the directory that holds it.
pub proof fn journal_is_answered(
    units: Map<Text, Unit>,
    roots: Seq<Text>,
    unit: Option<Text>,
    since: Option<u64>,
    tail: Option<u64>,
    f: Facts,
)
    ensures
        ({
            let a = answered(units, roots, Asked::Journal(unit, since, tail), f);
            &&& a is Reply && a->Reply_0 is Ok
            &&& member_of(a->Reply_0->Ok_0, "records"@) == Some(
                records_json(selected(views(f.records@), unit, since, tail)),
            )
            &&& member_of(a->Reply_0->Ok_0, "dir"@) == Some(Json::Str(f.journal_dir@))
        }),
{
    reveal_strlit("records");
    reveal_strlit("dir");
    assert("records"@.len() == 7 && "dir"@.len() == 3);
}

/// The enable state of a unit is that of the table, and empty where it is missing.
pub proof fn enable_states_are_looked_up(states: Map<Text, String>, n: Text)
    ensures
        states.contains_key(n) ==> state_in(states, n) == states[n]@,
        !states.contains_key(n) ==> state_in(states, n).len() == 0,
{
}

/// Work, tasks and stages are seen as they are.
pub proof fn work_is_what_it_holds(
    op: SequenceOp,
    v: Vec<String>,
    n: String,
    g: Signal,
    t: Task,
    l: Lifecycle,
)
    ensures
        Work::Each(op, v)@ == Todo::Each(op, texts(v@)),
        Work::Kill(n, g)@ == Todo::Kill(n@, g.raw()),
        Work::LoadAll@ is LoadAll,
        Work::SetDefault(n)@ == Todo::SetDefault(n@),
        Work::Isolate(v, n)@ == Todo::Isolate(texts(v@), n@),
        Work::Enable(v)@ == Todo::Enable(texts(v@)),
        Work::Disable(v)@ == Todo::Disable(texts(v@)),
        Work::Mask(v)@ == Todo::Mask(texts(v@)),
        Work::Unmask(v)@ == Todo::Unmask(texts(v@)),
        Work::Reenable(v)@ == Todo::Reenable(texts(v@)),
        Work::Clean(v)@ == Todo::Clean(texts(v@)),
        Work::Shutdown@ is Shutdown,
        t@.op == t.op && t@.unit == t.unit@ && t@.masks_count == t.masks_count,
        Stage::Check(n)@ == Next::Check(n@),
        Stage::Do(l, n)@ == Next::Do(l, n@),
{
}

/// What is missing in a request or a reply, or cannot be read, is said.
#[verifier::spinoff_prover]
#[verifier::rlimit(60)]
pub proof fn faults_of_the_wire_are_named(j: Json, e: Text)
    ensures
        string_member(j, "op"@) is None ==> asked(j) == Err::<Asked, Text>("missing op"@),
        string_member(j, "op"@) == Some("kill"@) && requested_units(j).len() == 0 ==> asked(j)
            == Err::<Asked, Text>("kill: no unit"@),
        string_member(j, "op"@) == Some("list_dependencies"@) && string_member(j, "name"@) is None
            ==> asked(j) == Err::<Asked, Text>("list_dependencies: missing name"@),
        string_member(j, "op"@) == Some("set_default"@) && string_member(j, "name"@) is None
            ==> asked(j) == Err::<Asked, Text>("set_default: missing name"@),
        string_member(j, "op"@) == Some("isolate"@) && string_member(j, "name"@) is None ==> asked(
            j,
        ) == Err::<Asked, Text>("isolate: missing name"@),
        asked_by_line(Err(e)) == Err::<Asked, Text>("bad request: "@ + e),
        asked_by_line(Ok(j)) == asked(j),
        line_brings(Err(e)) == Err::<Json, Text>("bad response: "@ + e),
        line_brings(Ok(j)) == reply_brings(j),
        bool_member(j, "ok"@) != Some(true) && string_member(j, "error"@) is None ==> reply_brings(j)
            == Err::<Json, Text>("unknown error"@),
        bool_member(j, "ok"@) != Some(true) && string_member(j, "error"@) == Some(e)
            ==> reply_brings(j) == Err::<Json, Text>(e),
{
    other_operations_are_others("kill"@);
    other_operations_are_others("list_dependencies"@);
    other_operations_are_others("set_default"@);
    other_operations_are_others("isolate"@);
    reveal_strlit("kill");
    reveal_strlit("list_dependencies");
    reveal_strlit("list_units");
    reveal_strlit("list_unit_files");
    reveal_strlit("list_timers");
    reveal_strlit("show");
    reveal_strlit("daemon_reload");
    reveal_strlit("get_default");
    reveal_strlit("repo");
    reveal_strlit("journal");
    reveal_strlit("set_default");
    reveal_strlit("isolate");
    assert("kill"@.len() == 4 && "kill"@[0] == 'k');
    assert("list_dependencies"@.len() == 17 && "list_dependencies"@[0] == 'l');
    assert("list_units"@.len() == 10 && "list_units"@[0] == 'l');
    assert("list_unit_files"@.len() == 15 && "list_unit_files"@[0] == 'l');
    assert("list_timers"@.len() == 11 && "list_timers"@[0] == 'l');
    assert("show"@.len() == 4 && "show"@[0] == 's');
    assert("daemon_reload"@.len() == 13 && "daemon_reload"@[0] == 'd');
    assert("get_default"@.len() == 11 && "get_default"@[0] == 'g');
    assert("repo"@.len() == 4 && "repo"@[0] == 'r');
    assert("journal"@.len() == 7 && "journal"@[0] == 'j');
    assert("set_default"@.len() == 11 && "set_default"@[0] == 's');
    assert("isolate"@.len() == 7 && "isolate"@[0] == 'i');
}

} // verus!
