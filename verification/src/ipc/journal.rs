//! The lines of the journal: how they are stored, which are shown, and in what
//! order.

use vstd::prelude::*;

use crate::control::{JournalRecord, Record};
use crate::order::views;
use crate::text::{
    cat3, cut, cut_at, dec, decimal, decimal_reads_back, digits, lacks, number, opt_text, owned,
    parse_number, same, split_once, Text,
};

verus! {

// ---- lines on disk --------------------------------------------------------------

/// A line as it is stored: the time, a space, and what was written.
pub open spec fn stored(secs: nat, text: Text) -> Text {
    decimal(secs) + " "@ + text
}

/// A line as it is stored.
pub fn stored_line(secs: u64, text: &str) -> (r: String)
    ensures
        r@ == stored(secs as nat, text@),
{
    cat3(dec(secs).as_str(), " ", text)
}

/// The line of a unit's journal that a stored line stands for; nothing where it
/// does not begin with a time.
pub open spec fn record_in(unit: Text, line: Text) -> Option<Record> {
    match cut(line, ' ') {
        None => None,
        Some((time, text)) => match number(time, 10, u64::MAX as nat) {
            None => None,
            Some(secs) => Some(Record { secs, unit, text }),
        },
    }
}

/// A line, as specifications see it.
pub open spec fn opt_record(r: Option<JournalRecord>) -> Option<Record> {
    match r {
        Some(x) => Some(x@),
        None => None,
    }
}

/// The line of a unit's journal that a stored line stands for.
pub fn read_line(unit: &str, line: &str) -> (r: Option<JournalRecord>)
    ensures
        opt_record(r) == record_in(unit@, line@),
{
    match split_once(line, ' ') {
        None => None,
        Some((time, text)) => match parse_number(time, 10, 0xffff_ffff_ffff_ffff) {
            None => None,
            Some(secs) => Some(JournalRecord { secs, unit: owned(unit), text: owned(text) }),
        },
    }
}

proof fn digits_hold_no_space(s: Text)
    requires
        digits(s, 10) is Some,
    ensures
        lacks(s, ' '),
    decreases s.len(),
{
    if s.len() > 0 {
        let init = s.drop_last();
        digits_hold_no_space(init);
        assert forall|i: int| 0 <= i < s.len() implies #[trigger] s[i] != ' ' by {
            if i < init.len() {
                assert(init[i] == s[i]);
            }
        }
    }
}

/// A line that was stored is read back.
pub proof fn stored_line_reads_back(secs: u64, unit: Text, text: Text)
    ensures
        record_in(unit, stored(secs as nat, text)) == Some(
            Record { secs: secs as nat, unit, text },
        ),
{
    reveal_strlit(" ");
    decimal_reads_back(secs as nat);
    digits_hold_no_space(decimal(secs as nat));
    assert(" "@ =~= seq![' ']);
    cut_at(decimal(secs as nat), ' ', text);
}

// ---- what was asked for ---------------------------------------------------------

/// Was the line asked for: is it one of the unit's, where one is named, and not
/// earlier than the time, where one is given?
pub open spec fn is_asked_for(r: Record, unit: Option<Text>, since: Option<u64>) -> bool {
    &&& match unit {
        Some(u) => r.unit == u,
        None => true,
    }
    &&& match since {
        Some(s) => r.secs >= s,
        None => true,
    }
}

/// The lines that were asked for, in the order in which they came.
pub open spec fn asked_for(
    v: Seq<Record>,
    unit: Option<Text>,
    since: Option<u64>,
) -> Seq<Record>
    decreases v.len(),
{
    if v.len() == 0 {
        seq![]
    } else if is_asked_for(v.last(), unit, since) {
        asked_for(v.drop_last(), unit, since).push(v.last())
    } else {
        asked_for(v.drop_last(), unit, since)
    }
}

/// Just the lines that were asked for are shown.
pub proof fn what_was_asked_for_is_shown(
    v: Seq<Record>,
    unit: Option<Text>,
    since: Option<u64>,
    r: Record,
)
    ensures
        asked_for(v, unit, since).contains(r) <==> v.contains(r) && is_asked_for(r, unit, since),
    decreases v.len(),
{
    if v.len() > 0 {
        let init = v.drop_last();
        what_was_asked_for_is_shown(init, unit, since, r);
        let a = asked_for(init, unit, since);
        let b = asked_for(v, unit, since);
        assert(v =~= init.push(v.last()));
        assert(v.contains(r) <==> init.contains(r) || r == v.last()) by {
            if init.contains(r) {
                let j = choose|j: int| 0 <= j < init.len() && init[j] == r;
                assert(v[j] == r);
            }
            assert(v[v.len() - 1] == v.last());
        }
        if is_asked_for(v.last(), unit, since) {
            assert(b.contains(r) <==> a.contains(r) || r == v.last()) by {
                if a.contains(r) {
                    let j = choose|j: int| 0 <= j < a.len() && a[j] == r;
                    assert(b[j] == r);
                }
                assert(b[a.len() as int] == v.last());
            }
        }
    }
}

// ---- order ----------------------------------------------------------------------

/// Where a line goes among lines in the order of time: behind those that are
/// not later.
pub open spec fn time_place(v: Seq<Record>, secs: nat) -> nat
    decreases v.len(),
{
    if v.len() == 0 {
        0
    } else if secs < v.last().secs {
        time_place(v.drop_last(), secs)
    } else {
        v.len()
    }
}

/// The lines in the order of time; those of one second stay in the order in
/// which they came.
pub open spec fn by_time(v: Seq<Record>) -> Seq<Record>
    decreases v.len(),
{
    if v.len() == 0 {
        seq![]
    } else {
        let init = by_time(v.drop_last());
        init.insert(time_place(init, v.last().secs) as int, v.last())
    }
}

/// The last lines, so many at most.
pub open spec fn last_of(v: Seq<Record>, tail: Option<u64>) -> Seq<Record> {
    match tail {
        Some(n) => if v.len() > n {
            v.skip(v.len() - n)
        } else {
            v
        },
        None => v,
    }
}

/// No line is earlier than one before it.
pub open spec fn in_time_order(v: Seq<Record>) -> bool {
    forall|i: int, j: int| 0 <= i < j < v.len() ==> (#[trigger] v[i]).secs <= (#[trigger] v[j]).secs
}

proof fn time_place_is_inside(v: Seq<Record>, secs: nat)
    ensures
        time_place(v, secs) <= v.len(),
        forall|j: int| time_place(v, secs) <= j < v.len() ==> secs < (#[trigger] v[j]).secs,
        time_place(v, secs) > 0 ==> v[time_place(v, secs) - 1].secs <= secs,
    decreases v.len(),
{
    if v.len() > 0 && secs < v.last().secs {
        let init = v.drop_last();
        time_place_is_inside(init, secs);
        assert forall|j: int| time_place(v, secs) <= j < v.len() implies secs < (
        #[trigger] v[j]).secs by {
            if j < init.len() {
                assert(init[j] == v[j]);
            }
        }
    }
}

/// The lines in the order of time are in that order, and none is lost.
pub proof fn journal_is_in_order(v: Seq<Record>)
    ensures
        in_time_order(by_time(v)),
        by_time(v).to_multiset() == v.to_multiset(),
        by_time(v).len() == v.len(),
    decreases v.len(),
{
    broadcast use vstd::seq_lib::group_to_multiset_ensures;

    if v.len() > 0 {
        let init = by_time(v.drop_last());
        journal_is_in_order(v.drop_last());
        let x = v.last();
        time_place_is_inside(init, x.secs);
        let k = time_place(init, x.secs) as int;
        let now = init.insert(k, x);
        assert forall|i: int, j: int| 0 <= i < j < now.len() implies (#[trigger] now[i]).secs <= (
        #[trigger] now[j]).secs by {
            let a: int = if i < k {
                i
            } else {
                i - 1
            };
            let b: int = if j < k {
                j
            } else {
                j - 1
            };
            if i == k {
                assert(now[j] == init[b]);
            } else if j == k {
                assert(now[i] == init[a]);
                assert(a <= k - 1);
                assert(init[a].secs <= init[k - 1].secs);
            } else {
                assert(now[i] == init[a]);
                assert(now[j] == init[b]);
            }
        }
        assert(v =~= v.drop_last().push(x));
    } else {
        assert(v =~= seq![]);
    }
}

fn copy_record(x: &JournalRecord) -> (r: JournalRecord)
    ensures
        r@ == x@,
{
    JournalRecord { secs: x.secs, unit: x.unit.clone(), text: x.text.clone() }
}

/// The lines of the journal that are shown, of those that were asked for: in the
/// order of time, the last `tail` of them.
pub open spec fn selected(
    v: Seq<Record>,
    unit: Option<Text>,
    since: Option<u64>,
    tail: Option<u64>,
) -> Seq<Record> {
    last_of(by_time(asked_for(v, unit, since)), tail)
}

/// The lines of the journal that are shown: of the unit's, where one is named,
/// and not earlier than the time, where one is given, in the order of time, the
/// last `tail`.
pub fn select_records(
    records: &Vec<JournalRecord>,
    unit: &Option<String>,
    since: Option<u64>,
    tail: Option<u64>,
) -> (r: Vec<JournalRecord>)
    ensures
        views(r@) == selected(views(records@), opt_text(*unit), since, tail),
{
    let kept = keep_asked_for(records, unit, since);
    order_records(&kept, tail)
}

fn keep_asked_for(
    records: &Vec<JournalRecord>,
    unit: &Option<String>,
    since: Option<u64>,
) -> (r: Vec<JournalRecord>)
    ensures
        views(r@) == asked_for(views(records@), opt_text(*unit), since),
{
    let ghost all = views(records@);
    let ghost named = opt_text(*unit);
    let mut out: Vec<JournalRecord> = Vec::new();
    let mut i: usize = 0;
    proof {
        assert(all.take(0) =~= seq![]);
        assert(views(out@) =~= seq![]);
    }
    while i < records.len()
        invariant
            i <= records.len(),
            all == views(records@),
            named == opt_text(*unit),
            views(out@) == asked_for(all.take(i as int), named, since),
        decreases records.len() - i,
    {
        let ghost upto = all.take(i + 1);
        let ghost was = views(out@);
        proof {
            assert(upto.drop_last() =~= all.take(i as int));
            assert(upto.last() == records@[i as int]@);
        }
        let of_unit = match unit {
            Some(u) => same(records[i].unit.as_str(), u.as_str()),
            None => true,
        };
        let in_time = match since {
            Some(s) => records[i].secs >= s,
            None => true,
        };
        if of_unit && in_time {
            out.push(copy_record(&records[i]));
            assert(views(out@) =~= was.push(upto.last()));
        }
        i = i + 1;
    }
    assert(all.take(records.len() as int) =~= all);
    out
}

/// Lines in the order of time, the last `tail` of them.
fn order_records(records: &Vec<JournalRecord>, tail: Option<u64>) -> (r: Vec<JournalRecord>)
    ensures
        views(r@) == last_of(by_time(views(records@)), tail),
{
    let mut out: Vec<JournalRecord> = Vec::new();
    let mut i: usize = 0;
    let ghost all = views(records@);
    proof {
        assert(all.take(0) =~= seq![]);
        assert(views(out@) =~= seq![]);
    }
    while i < records.len()
        invariant
            i <= records.len(),
            all == views(records@),
            views(out@) == by_time(all.take(i as int)),
        decreases records.len() - i,
    {
        let ghost upto = all.take(i + 1);
        let ghost was = views(out@);
        let secs = records[i].secs;
        proof {
            assert(upto.drop_last() =~= all.take(i as int));
            assert(upto.last() == all[i as int]);
            assert(was.take(was.len() as int) =~= was);
        }
        let mut k: usize = out.len();
        while k > 0 && secs < out[k - 1].secs
            invariant
                k <= out.len(),
                was == views(out@),
                time_place(was, secs as nat) == time_place(was.take(k as int), secs as nat),
            decreases k,
        {
            k = k - 1;
            proof {
                let s = was.take(k + 1);
                assert(s.last() == was[k as int]);
                assert(s.drop_last() =~= was.take(k as int));
            }
        }
        proof {
            if k > 0 {
                assert(was.take(k as int).last() == was[k - 1]);
            }
        }
        let x = copy_record(&records[i]);
        let ghost line = x@;
        out.insert(k, x);
        assert(views(out@) =~= was.insert(k as int, line));
        i = i + 1;
    }
    assert(all.take(records.len() as int) =~= all);
    match tail {
        None => out,
        Some(n) => {
            if out.len() as u64 > n {
                let ghost whole = views(out@);
                let cut: usize = out.len() - n as usize;
                let rest = out.split_off(cut);
                assert(views(rest@) =~= whole.skip(cut as int));
                rest
            } else {
                out
            }
        },
    }
}

/// The lines that are shown are those of the unit, where one is named, and those
/// not earlier than the time, where one is given.
pub proof fn lines_are_asked_for_by_unit_and_time(r: Record, u: Text, s: u64)
    ensures
        is_asked_for(r, None, None),
        is_asked_for(r, Some(u), None) <==> r.unit == u,
        is_asked_for(r, None, Some(s)) <==> r.secs >= s,
        is_asked_for(r, Some(u), Some(s)) <==> is_asked_for(r, Some(u), None) && is_asked_for(
            r,
            None,
            Some(s),
        ),
{
}

/// The tail is the end of the lines: so many of them, or all where there are fewer.
pub proof fn the_tail_is_the_end(v: Seq<Record>, n: u64, i: int)
    ensures
        last_of(v, None) == v,
        v.len() <= n ==> last_of(v, Some(n)) == v,
        v.len() > n ==> last_of(v, Some(n)).len() == n,
        0 <= i < last_of(v, Some(n)).len() ==> last_of(v, Some(n))[i] == v[v.len() - last_of(
            v,
            Some(n),
        ).len() + i],
{
}

/// A line that is not earlier than the others comes last: lines of one second stay
/// in the order in which they came.
pub proof fn later_lines_come_last(v: Seq<Record>, r: Record)
    requires
        forall|i: int| 0 <= i < v.len() ==> (#[trigger] v[i]).secs <= r.secs,
    ensures
        by_time(v.push(r)) == by_time(v).push(r),
{
    broadcast use vstd::seq_lib::group_to_multiset_ensures;

    assert(v.push(r).drop_last() =~= v);
    journal_is_in_order(v);
    let init = by_time(v);
    if init.len() > 0 {
        let x = init.last();
        assert(init.to_multiset().count(x) > 0) by {
            assert(init.contains(x));
        }
        assert(v.contains(x));
        let i = v.index_of(x);
        assert(v[i].secs <= r.secs);
    }
    assert(init.insert(init.len() as int, r) =~= init.push(r));
}

} // verus!
