//! No reply of the manager is nested too deep to be read back.

use vstd::prelude::*;

use crate::control::{
    cat_json, cats_json, file_json, files_json, record_json, records_json, status_json,
    statuses_json, summaries_json, summary_json, timer_json, timers_json, Cat, FileInfo, Record,
    Status, Summary, Timer,
};
use crate::ipc::run::{answered, is_active_reply, is_failed_reply, state_pair, Answered, Facts};
use crate::ipc::{Asked, UnitsOp};
use crate::json::{within_depth, Json, MAX_DEPTH};
use crate::manager::ops::{cat_entries, shown_units};
use crate::manager::state::Unit;
use crate::text::Text;

verus! {

proof fn deeper(j: Json, a: nat, b: nat)
    requires
        within_depth(j, a),
        a <= b,
    ensures
        within_depth(j, b),
    decreases a,
{
    match j {
        Json::Arr(v) => {
            assert forall|i: int| 0 <= i < v.len() implies within_depth(
                #[trigger] v[i],
                (b - 1) as nat,
            ) by {
                deeper(v[i], (a - 1) as nat, (b - 1) as nat);
            }
        },
        Json::Obj(m) => {
            assert forall|k: Text| m.contains_key(k) implies within_depth(
                #[trigger] m[k],
                (b - 1) as nat,
            ) by {
                deeper(m[k], (a - 1) as nat, (b - 1) as nat);
            }
        },
        _ => {},
    }
}

/// Is the value a plain one, or an array of plain ones?
spec fn is_low(j: Json) -> bool {
    match j {
        Json::OtherNumber(_) => false,
        Json::Obj(_) => false,
        Json::Arr(a) => forall|i: int|
            0 <= i < a.len() ==> (#[trigger] a[i] is Str || a[i] is Bool),
        _ => true,
    }
}

proof fn low_is_shallow(j: Json)
    requires
        is_low(j),
    ensures
        within_depth(j, 1),
{
    match j {
        Json::Arr(a) => {
            assert forall|i: int| 0 <= i < a.len() implies within_depth(#[trigger] a[i], 0) by {
                assert(a[i] is Str || a[i] is Bool);
            }
        },
        _ => {},
    }
}

proof fn object_is_shallow(j: Json)
    requires
        j is Obj,
        forall|k: Text| (j->Obj_0).contains_key(k) ==> is_low(#[trigger] (j->Obj_0)[k]),
    ensures
        within_depth(j, 2),
{
    let m = j->Obj_0;
    assert forall|k: Text| m.contains_key(k) implies within_depth(#[trigger] m[k], 1) by {
        low_is_shallow(m[k]);
    }
}

proof fn rows_are_shallow(a: Seq<Json>)
    requires
        forall|i: int| 0 <= i < a.len() ==> within_depth(#[trigger] a[i], 2),
    ensures
        within_depth(Json::Arr(a), 3),
{
}

proof fn status_rows(v: Seq<Status>)
    ensures
        within_depth(statuses_json(v), 3),
{
    let a = Seq::new(v.len(), |i: int| status_json(v[i]));
    assert forall|i: int| 0 <= i < a.len() implies within_depth(#[trigger] a[i], 2) by {
        object_is_shallow(status_json(v[i]));
    }
    rows_are_shallow(a);
}

proof fn summary_rows(v: Seq<Summary>)
    ensures
        within_depth(summaries_json(v), 3),
{
    let a = Seq::new(v.len(), |i: int| summary_json(v[i]));
    assert forall|i: int| 0 <= i < a.len() implies within_depth(#[trigger] a[i], 2) by {
        object_is_shallow(summary_json(v[i]));
    }
    rows_are_shallow(a);
}

proof fn timer_rows(v: Seq<Timer>)
    ensures
        within_depth(timers_json(v), 3),
{
    let a = Seq::new(v.len(), |i: int| timer_json(v[i]));
    assert forall|i: int| 0 <= i < a.len() implies within_depth(#[trigger] a[i], 2) by {
        object_is_shallow(timer_json(v[i]));
    }
    rows_are_shallow(a);
}

proof fn file_rows(v: Seq<FileInfo>)
    ensures
        within_depth(files_json(v), 3),
{
    let a = Seq::new(v.len(), |i: int| file_json(v[i]));
    assert forall|i: int| 0 <= i < a.len() implies within_depth(#[trigger] a[i], 2) by {
        object_is_shallow(file_json(v[i]));
    }
    rows_are_shallow(a);
}

proof fn cat_rows(v: Seq<Cat>)
    ensures
        within_depth(cats_json(v), 3),
{
    let a = Seq::new(v.len(), |i: int| cat_json(v[i]));
    assert forall|i: int| 0 <= i < a.len() implies within_depth(#[trigger] a[i], 2) by {
        object_is_shallow(cat_json(v[i]));
    }
    rows_are_shallow(a);
}

proof fn record_rows(v: Seq<Record>)
    ensures
        within_depth(records_json(v), 3),
{
    let a = Seq::new(v.len(), |i: int| record_json(v[i]));
    assert forall|i: int| 0 <= i < a.len() implies within_depth(#[trigger] a[i], 2) by {
        object_is_shallow(record_json(v[i]));
    }
    rows_are_shallow(a);
}

proof fn shown_rows(
    units: Map<Text, Unit>,
    names: Seq<Text>,
    props: Seq<Text>,
    states: Map<Text, String>,
)
    ensures
        forall|i: int|
            0 <= i < shown_units(units, names, props, states).len() ==> within_depth(
                #[trigger] shown_units(units, names, props, states)[i],
                2,
            ),
    decreases names.len(),
{
    let a = shown_units(units, names, props, states);
    if names.len() > 0 {
        let init = shown_units(units, names.drop_last(), props, states);
        shown_rows(units, names.drop_last(), props, states);
        assert forall|i: int| 0 <= i < a.len() implies within_depth(#[trigger] a[i], 2) by {
            if i < init.len() {
                assert(a[i] == init[i]);
            } else {
                object_is_shallow(a[i]);
            }
        }
    }
}

proof fn active_reply(units: Map<Text, Unit>, names: Seq<Text>)
    ensures
        is_active_reply(units, names) is Ok ==> within_depth(
            is_active_reply(units, names)->Ok_0,
            3,
        ),
{
    if is_active_reply(units, names) is Ok {
        let a = Seq::new(names.len(), |i: int| state_pair(names[i], units[names[i]]));
        assert forall|i: int| 0 <= i < a.len() implies within_depth(#[trigger] a[i], 1) by {
            low_is_shallow(a[i]);
        }
        assert(within_depth(Json::Arr(a), 2));
        let m = is_active_reply(units, names)->Ok_0->Obj_0;
        assert forall|k: Text| m.contains_key(k) implies within_depth(#[trigger] m[k], 2) by {}
    }
}

proof fn failed_reply(units: Map<Text, Unit>, names: Seq<Text>)
    ensures
        is_failed_reply(units, names) is Ok ==> within_depth(
            is_failed_reply(units, names)->Ok_0,
            1,
        ),
    decreases names.len(),
{
    if names.len() > 0 {
        failed_reply(units, names.skip(1));
    }
    if is_failed_reply(units, names) is Ok && (names.len() == 0 || units[names[0]].active
        != crate::manager::state::ActiveState::Failed) {
        low_is_shallow(is_failed_reply(units, names)->Ok_0);
    }
}

/// Whatever is asked, what the manager replies at once is nested no deeper than
/// what is read back from a reply line.
pub proof fn replies_are_read_back(
    units: Map<Text, Unit>,
    roots: Seq<Text>,
    q: Asked,
    f: Facts,
)
    ensures
        match answered(units, roots, q, f) {
            Answered::Reply(Ok(j)) => within_depth(j, (MAX_DEPTH - 1) as nat),
            _ => true,
        },
{
    let a = answered(units, roots, q, f);
    match a {
        Answered::Reply(Ok(j)) => {
            match q {
                Asked::Units(op, names) => match op {
                    UnitsOp::Status => {
                        status_rows(
                            crate::ipc::run::statuses(
                                units,
                                crate::manager::ops::query_list(units, names),
                                f.states@,
                            ),
                        );
                        deeper(j, 3, (MAX_DEPTH - 1) as nat);
                    },
                    UnitsOp::IsActive => {
                        active_reply(units, names);
                        deeper(j, 3, (MAX_DEPTH - 1) as nat);
                    },
                    UnitsOp::IsFailed => {
                        failed_reply(units, names);
                        deeper(j, 1, (MAX_DEPTH - 1) as nat);
                    },
                    UnitsOp::Cat => {
                        cat_rows(cat_entries(units, names, f.read_files@)->Ok_0);
                        deeper(j, 3, (MAX_DEPTH - 1) as nat);
                    },
                    UnitsOp::IsEnabled => {
                        low_is_shallow(j);
                        deeper(j, 1, (MAX_DEPTH - 1) as nat);
                    },
                    _ => {},
                },
                Asked::ListDependencies(_, _) => {
                    low_is_shallow(j);
                    deeper(j, 1, (MAX_DEPTH - 1) as nat);
                },
                Asked::ListUnits(types, state, pattern) => {
                    summary_rows(
                        crate::manager::ops::summaries(
                            units,
                            crate::table::sorted_keys(units),
                            types,
                            state,
                            pattern,
                        ),
                    );
                    deeper(j, 3, (MAX_DEPTH - 1) as nat);
                },
                Asked::ListUnitFiles => {
                    file_rows(
                        crate::order::sorting::<crate::control::UnitFileInfo>(
                            crate::manager::ops::file_infos(f.files@),
                        ),
                    );
                    deeper(j, 3, (MAX_DEPTH - 1) as nat);
                },
                Asked::ListTimers => {
                    timer_rows(
                        crate::manager::ops::timer_infos(
                            units,
                            crate::table::sorted_keys(units),
                            f.now,
                        ),
                    );
                    deeper(j, 3, (MAX_DEPTH - 1) as nat);
                },
                Asked::Show(names, props) => {
                    shown_rows(
                        units,
                        crate::manager::ops::query_list(units, names),
                        props,
                        f.states@,
                    );
                    rows_are_shallow(j->Arr_0);
                    deeper(j, 3, (MAX_DEPTH - 1) as nat);
                },
                Asked::Repo => {
                    object_is_shallow(j);
                    deeper(j, 2, (MAX_DEPTH - 1) as nat);
                },
                Asked::Journal(unit, since, tail) => {
                    let v = crate::ipc::journal::selected(
                        crate::order::views(f.records@),
                        unit,
                        since,
                        tail,
                    );
                    record_rows(v);
                    let m = j->Obj_0;
                    assert forall|k: Text| m.contains_key(k) implies within_depth(
                        #[trigger] m[k],
                        3,
                    ) by {}
                    assert(within_depth(j, 4));
                    deeper(j, 4, (MAX_DEPTH - 1) as nat);
                },
                Asked::IsSystemRunning => {
                    object_is_shallow(j);
                    deeper(j, 2, (MAX_DEPTH - 1) as nat);
                },
                _ => {},
            }
        },
        _ => {},
    }
}

} // verus!
