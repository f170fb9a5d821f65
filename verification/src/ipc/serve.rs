//! The way from a request to the line that answers it.

use vstd::prelude::*;

use crate::ipc::depth::replies_are_read_back;
use crate::ipc::run::{answered, run_op, units_after, Answer, Answered, Facts, Work};
use crate::ipc::{asked_result, line_brings, reply_line, Asked, Request, UnitsOp};
use crate::json::{is_line, parsed_json};
use crate::manager::ops::Manager;
use crate::manager::state::Unit;
use crate::text::Text;

verus! {

/// What becomes of a request: the line that answers it, or work to do first.
#[derive(Debug)]
pub enum Served {
    Line(String),
    Perform(Work),
}

/// The answer to a request line. One that cannot be read is answered with the
/// reason.
pub open spec fn dispatched(
    units: Map<Text, Unit>,
    roots: Seq<Text>,
    q: Result<Asked, Text>,
    f: Facts,
) -> Answered {
    match q {
        Ok(x) => answered(units, roots, x, f),
        Err(e) => Answered::Reply(Err(e)),
    }
}

/// The units after a request line was answered: one that cannot be read changes
/// nothing.
pub open spec fn units_after_line(units: Map<Text, Unit>, q: Result<Asked, Text>) -> Map<
    Text,
    Unit,
> {
    match q {
        Ok(x) => units_after(units, x),
        Err(_) => units,
    }
}

/// Is this what the answer becomes? Whoever reads the line has the answer.
pub open spec fn serves(s: Served, a: Answered) -> bool {
    match a {
        Answered::Reply(r) => match s {
            Served::Line(line) => is_line(line@) && line_brings(parsed_json(line@)) == r,
            Served::Perform(_) => false,
        },
        Answered::Perform(t) => match s {
            Served::Perform(w) => w@ == t,
            Served::Line(_) => false,
        },
    }
}

/// Answer a request line, as it was read. For `cat`, what reading the file of
/// each unit gave has to be among the facts.
pub fn dispatch(mgr: &mut Manager, request: Result<Request, String>, facts: &Facts) -> (r: Served)
    requires
        request matches Ok(Request::Units { op: UnitsOp::Cat, units }) ==> facts.read_files.len()
            == units.len(),
    ensures
        serves(
            r,
            dispatched(old(mgr).units@, old(mgr).repo.paths(), asked_result(request), *facts),
        ),
        final(mgr).units@ == units_after_line(old(mgr).units@, asked_result(request)),
        final(mgr).repo == old(mgr).repo,
{
    match request {
        Err(e) => Served::Line(reply_line(Err(e))),
        Ok(q) => {
            proof {
                replies_are_read_back(mgr.units@, mgr.repo.paths(), q@, *facts);
            }
            match run_op(mgr, q, facts) {
                Answer::Reply(x) => Served::Line(reply_line(x)),
                Answer::Perform(w) => Served::Perform(w),
            }
        },
    }
}

} // verus!
