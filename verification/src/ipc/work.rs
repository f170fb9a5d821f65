//! Work that is done unit by unit and ends at the first failure, and the
//! replies to finished work.

use vstd::prelude::*;

use crate::ipc::run::SequenceOp;
use crate::ipc::value_result;
use crate::json::{null_value, text_array, texts_value, Json};
use crate::manager::ops::{try_restart_of, Lifecycle, Manager};
use crate::manager::state::{ActiveState, Unit};
use crate::text::{cat3, join, joined, owned, texts, Text};

verus! {

/// One step of a sequence: what is done to a unit, and whether a mask on the
/// unit forbids it.
pub struct Task {
    pub op: SequenceOp,
    pub unit: String,
    pub masks_count: bool,
}

/// A task, as specifications see it.
#[verifier::ext_equal]
pub ghost struct Duty {
    pub op: SequenceOp,
    pub unit: Text,
    pub masks_count: bool,
}

impl View for Task {
    type V = Duty;

    open spec fn view(&self) -> Duty {
        Duty { op: self.op, unit: self.unit@, masks_count: self.masks_count }
    }
}

/// Tasks that are done one after the other.
pub struct Sequence {
    tasks: Vec<Task>,
    done: usize,
}

/// What happened since the last step of a sequence.
pub enum Event {
    /// Nothing yet: the sequence begins.
    Begin,
    /// Whether the unit is masked is known.
    Masked(bool),
    /// The task was done, or it failed.
    Done(Result<(), String>),
}

/// What is to be done next.
pub enum Stage {
    /// Find out whether the unit is masked.
    Check(String),
    Do(Lifecycle, String),
    Finished(Result<(), String>),
}

/// What is to be done next, as specifications see it.
pub ghost enum Next {
    Check(Text),
    Do(Lifecycle, Text),
    Finished(Result<(), Text>),
}

/// A result without a value, as specifications see it.
pub open spec fn unit_result(r: Result<(), String>) -> Result<(), Text> {
    match r {
        Ok(_) => Ok(()),
        Err(e) => Err(e@),
    }
}

impl View for Stage {
    type V = Next;

    open spec fn view(&self) -> Next {
        match self {
            Stage::Check(u) => Next::Check(u@),
            Stage::Do(l, u) => Next::Do(*l, u@),
            Stage::Finished(r) => Next::Finished(unit_result(*r)),
        }
    }
}

/// What an operation does to a unit, if anything.
pub open spec fn lifecycle_of(
    units: Map<Text, Unit>,
    op: SequenceOp,
    n: Text,
) -> Option<Lifecycle> {
    match op {
        SequenceOp::Start => Some(Lifecycle::Start),
        SequenceOp::Stop => Some(Lifecycle::Stop),
        SequenceOp::Restart => Some(Lifecycle::Restart),
        SequenceOp::Reload => Some(Lifecycle::Reload),
        SequenceOp::TryRestart => try_restart_of(units, n),
    }
}

/// The tasks of one operation on several units: starting a masked unit is
/// forbidden.
pub open spec fn duties(op: SequenceOp, units: Seq<Text>) -> Seq<Duty> {
    Seq::new(
        units.len(),
        |i: int| Duty { op, unit: units[i], masks_count: op == SequenceOp::Start },
    )
}

/// The tasks of isolating a unit: the others are stopped before it is started.
pub open spec fn isolate_duties(stops: Seq<Text>, start: Text) -> Seq<Duty> {
    duties(SequenceOp::Stop, stops).push(
        Duty { op: SequenceOp::Start, unit: start, masks_count: false },
    )
}

/// What is next when so many of the tasks are done, and how many count as done
/// then: a task that does nothing is passed over.
pub open spec fn upcoming(tasks: Seq<Duty>, done: nat, units: Map<Text, Unit>) -> (nat, Next)
    decreases tasks.len() - done, 1nat,
{
    if done >= tasks.len() {
        (done, Next::Finished(Ok(())))
    } else if tasks[done as int].masks_count {
        (done, Next::Check(tasks[done as int].unit))
    } else {
        doing(tasks, done, units)
    }
}

/// What is next when so many of the tasks are done and no mask is in the way of
/// the one that follows.
pub open spec fn doing(tasks: Seq<Duty>, done: nat, units: Map<Text, Unit>) -> (nat, Next)
    decreases tasks.len() - done, 0nat,
{
    let t = tasks[done as int];
    match lifecycle_of(units, t.op, t.unit) {
        Some(l) => (done, Next::Do(l, t.unit)),
        None => if done < tasks.len() {
            upcoming(tasks, done + 1, units)
        } else {
            (done, Next::Finished(Ok(())))
        },
    }
}

/// What is next after an event, and how many tasks are then done.
pub open spec fn stepped(
    tasks: Seq<Duty>,
    done: nat,
    event: Event,
    units: Map<Text, Unit>,
) -> (nat, Next) {
    match event {
        Event::Begin => upcoming(tasks, done, units),
        Event::Masked(masked) => if done >= tasks.len() {
            (done, Next::Finished(Ok(())))
        } else {
            let t = tasks[done as int];
            if masked {
                (done, Next::Finished(Err("Unit "@ + t.unit + " is masked."@)))
            } else {
                doing(tasks, done, units)
            }
        },
        Event::Done(Ok(_)) => if done >= tasks.len() {
            (done, Next::Finished(Ok(())))
        } else {
            upcoming(tasks, done + 1, units)
        },
        Event::Done(Err(e)) => (done, Next::Finished(Err(e@))),
    }
}

impl Sequence {
    /// The tasks.
    pub closed spec fn tasks(&self) -> Seq<Duty> {
        crate::order::views(self.tasks@)
    }

    /// How many of them are done.
    pub closed spec fn done(&self) -> nat {
        self.done as nat
    }

    /// One operation on several units.
    pub fn each(op: SequenceOp, units: &Vec<String>) -> (r: Sequence)
        ensures
            r.tasks() == duties(op, texts(units@)),
            r.done() == 0,
    {
        let mut tasks: Vec<Task> = Vec::new();
        let mut i: usize = 0;
        while i < units.len()
            invariant
                i <= units.len(),
                tasks.len() == i,
                forall|j: int|
                    0 <= j < i ==> (#[trigger] tasks@[j])@ == duties(op, texts(units@))[j],
            decreases units.len() - i,
        {
            tasks.push(
                Task { op, unit: units[i].clone(), masks_count: op == SequenceOp::Start },
            );
            i = i + 1;
        }
        assert(crate::order::views(tasks@) =~= duties(op, texts(units@)));
        Sequence { tasks, done: 0 }
    }

    /// Isolating a unit.
    pub fn isolate(stops: &Vec<String>, start: &str) -> (r: Sequence)
        ensures
            r.tasks() == isolate_duties(texts(stops@), start@),
            r.done() == 0,
    {
        let mut s = Sequence::each(SequenceOp::Stop, stops);
        s.tasks.push(Task { op: SequenceOp::Start, unit: owned(start), masks_count: false });
        assert(s.tasks() =~= isolate_duties(texts(stops@), start@));
        s
    }

    fn upcoming(&mut self, mgr: &Manager) -> (r: Stage)
        ensures
            final(self).tasks() == old(self).tasks(),
            (final(self).done(), r@) == upcoming(old(self).tasks(), old(self).done(), mgr.units@),
    {
        while self.done < self.tasks.len()
            invariant
                self.tasks == old(self).tasks,
                upcoming(self.tasks(), self.done(), mgr.units@) == upcoming(
                    old(self).tasks(),
                    old(self).done(),
                    mgr.units@,
                ),
            decreases self.tasks.len() - self.done,
        {
            let t = &self.tasks[self.done];
            assert(self.tasks()[self.done as int] == t@);
            if t.masks_count {
                return Stage::Check(t.unit.clone());
            }
            match lifecycle(mgr, t.op, t.unit.as_str()) {
                Some(l) => {
                    return Stage::Do(l, t.unit.clone());
                },
                None => {
                    self.done = self.done + 1;
                },
            }
        }
        Stage::Finished(Ok(()))
    }

    /// Take what happened, and say what is next.
    pub fn step(&mut self, event: Event, mgr: &Manager) -> (r: Stage)
        ensures
            final(self).tasks() == old(self).tasks(),
            (final(self).done(), r@) == stepped(
                old(self).tasks(),
                old(self).done(),
                event,
                mgr.units@,
            ),
    {
        match event {
            Event::Begin => self.upcoming(mgr),
            Event::Masked(masked) => {
                if self.done >= self.tasks.len() {
                    return Stage::Finished(Ok(()));
                }
                let t = &self.tasks[self.done];
                if masked {
                    Stage::Finished(Err(cat3("Unit ", t.unit.as_str(), " is masked.")))
                } else {
                    match lifecycle(mgr, t.op, t.unit.as_str()) {
                        Some(l) => Stage::Do(l, t.unit.clone()),
                        None => {
                            self.done = self.done + 1;
                            self.upcoming(mgr)
                        },
                    }
                }
            },
            Event::Done(Ok(_)) => {
                if self.done >= self.tasks.len() {
                    return Stage::Finished(Ok(()));
                }
                self.done = self.done + 1;
                self.upcoming(mgr)
            },
            Event::Done(Err(e)) => Stage::Finished(Err(e)),
        }
    }
}

fn lifecycle(mgr: &Manager, op: SequenceOp, unit: &str) -> (r: Option<Lifecycle>)
    ensures
        r == lifecycle_of(mgr.units@, op, unit@),
{
    match op {
        SequenceOp::Start => Some(Lifecycle::Start),
        SequenceOp::Stop => Some(Lifecycle::Stop),
        SequenceOp::Restart => Some(Lifecycle::Restart),
        SequenceOp::Reload => Some(Lifecycle::Reload),
        SequenceOp::TryRestart => {
            let mut names: Vec<String> = Vec::new();
            names.push(owned(unit));
            let steps = mgr.try_restart_units(&names);
            assert(steps@[0] == try_restart_of(mgr.units@, names@[0]@));
            steps[0]
        },
    }
}

/// Does a task do nothing?
pub open spec fn idle(t: Duty, units: Map<Text, Unit>) -> bool {
    !t.masks_count && lifecycle_of(units, t.op, t.unit) is None
}

/// A sequence ends where only tasks that do nothing are left.
proof fn idle_tasks_are_passed_over(tasks: Seq<Duty>, done: nat, units: Map<Text, Unit>)
    requires
        done <= tasks.len(),
    ensures
        upcoming(tasks, done, units).1 is Finished <==> forall|i: int|
            done <= i < tasks.len() ==> idle(#[trigger] tasks[i], units),
        done <= upcoming(tasks, done, units).0 <= tasks.len(),
        forall|i: int|
            done <= i < upcoming(tasks, done, units).0 ==> idle(#[trigger] tasks[i], units),
        match upcoming(tasks, done, units) {
            (k, Next::Do(l, u)) => k < tasks.len() && u == tasks[k as int].unit && Some(l)
                == lifecycle_of(units, tasks[k as int].op, u),
            (k, Next::Check(u)) => k < tasks.len() && u == tasks[k as int].unit && tasks[k as int].masks_count,
            (k, Next::Finished(r)) => k == tasks.len() && r == Ok::<(), Text>(()),
        },
    decreases tasks.len() - done,
{
    if done < tasks.len() && idle(tasks[done as int], units) {
        idle_tasks_are_passed_over(tasks, done + 1, units);
    }
}

/// A sequence goes on to the next unit only after the one before it was done
/// without an error: a failure, or a mask, ends it. It ends well where nothing
/// is left to do.
pub proof fn a_failure_ends_the_sequence(
    tasks: Seq<Duty>,
    done: nat,
    e: String,
    units: Map<Text, Unit>,
)
    requires
        done < tasks.len(),
    ensures
        stepped(tasks, done, Event::Done(Err(e)), units) == (
            done,
            Next::Finished(Err::<(), Text>(e@)),
        ),
        stepped(tasks, done, Event::Masked(true), units).1 is Finished,
        stepped(tasks, done, Event::Masked(true), units).0 == done,
        stepped(tasks, done, Event::Done(Ok(())), units).1 is Finished <==> forall|i: int|
            done < i < tasks.len() ==> idle(#[trigger] tasks[i], units),
{
    idle_tasks_are_passed_over(tasks, done + 1, units);
}

/// `try-restart` leaves inactive units alone: whatever happened before, nothing
/// is done to one.
pub proof fn inactive_units_are_left_alone(
    names: Seq<Text>,
    done: nat,
    event: Event,
    units: Map<Text, Unit>,
)
    requires
        done <= names.len(),
    ensures
        match stepped(duties(SequenceOp::TryRestart, names), done, event, units).1 {
            Next::Do(_, u) => !(units.contains_key(u) && units[u].active == ActiveState::Inactive),
            _ => true,
        },
{
    let tasks = duties(SequenceOp::TryRestart, names);
    idle_tasks_are_passed_over(tasks, done, units);
    if done < tasks.len() {
        idle_tasks_are_passed_over(tasks, done + 1, units);
    }
}

/// A unit that is isolated is started last, once all the others are stopped.
pub proof fn isolating_starts_last(
    stops: Seq<Text>,
    start: Text,
    done: nat,
    units: Map<Text, Unit>,
)
    requires
        done <= stops.len(),
    ensures
        upcoming(isolate_duties(stops, start), done, units) == (
            done,
            if done < stops.len() {
                Next::Do(Lifecycle::Stop, stops[done as int])
            } else {
                Next::Do(Lifecycle::Start, start)
            },
        ),
        upcoming(isolate_duties(stops, start), stops.len() + 1, units).1 == Next::Finished(
            Ok::<(), Text>(()),
        ),
{
}

/// A masked unit is not started: a unit is started only right after it was
/// found not to be masked, and the request for a masked one is refused by name.
pub proof fn masked_units_are_not_started(
    names: Seq<Text>,
    done: nat,
    event: Event,
    units: Map<Text, Unit>,
)
    requires
        done < names.len(),
    ensures
        match stepped(duties(SequenceOp::Start, names), done, event, units).1 {
            Next::Do(l, u) => event == Event::Masked(false) && l == Lifecycle::Start && u
                == names[done as int],
            _ => true,
        },
        stepped(duties(SequenceOp::Start, names), done, Event::Masked(true), units).1
            == Next::Finished(Err::<(), Text>("Unit "@ + names[done as int] + " is masked."@)),
{
}

// ---- replies to finished work ---------------------------------------------------

/// The reply to work that brings nothing but its success.
pub open spec fn plain_reply(r: Result<(), Text>) -> Result<Json, Text> {
    match r {
        Ok(_) => Ok(Json::Null),
        Err(e) => Err(e),
    }
}

/// The reply to work that brings nothing but its success.
pub fn reply_done(r: Result<(), String>) -> (v: Result<serde_json::Value, String>)
    ensures
        value_result(v) == plain_reply(unit_result(r)),
{
    match r {
        Ok(_) => Ok(null_value()),
        Err(e) => Err(e),
    }
}

/// The reply to reloading the units, from the errors that it brought.
pub open spec fn load_reply(errors: Seq<Text>) -> Result<Json, Text> {
    if errors.len() == 0 {
        Ok(Json::Null)
    } else {
        Err(joined(errors, "; "@))
    }
}

/// The reply to reloading the units, from the errors that it brought.
pub fn reply_loaded(errors: &Vec<String>) -> (v: Result<serde_json::Value, String>)
    ensures
        value_result(v) == load_reply(texts(errors@)),
{
    if errors.len() == 0 {
        Ok(null_value())
    } else {
        Err(join(errors, "; "))
    }
}

/// The messages of work on several units: those of each unit in turn, or the
/// error of the first that failed.
pub open spec fn all_messages(v: Seq<Result<Vec<String>, String>>) -> Result<Seq<Text>, Text>
    decreases v.len(),
{
    if v.len() == 0 {
        Ok(seq![])
    } else {
        match (all_messages(v.drop_last()), v.last()) {
            (Err(e), _) => Err(e),
            (Ok(_), Err(e)) => Err(e@),
            (Ok(a), Ok(b)) => Ok(a + texts(b@)),
        }
    }
}

proof fn message_error_stays(v: Seq<Result<Vec<String>, String>>, i: int)
    requires
        0 <= i <= v.len(),
        all_messages(v.take(i)) is Err,
    ensures
        all_messages(v) == all_messages(v.take(i)),
    decreases v.len(),
{
    if i == v.len() {
        assert(v.take(i) =~= v);
    } else {
        assert(v.drop_last().take(i) =~= v.take(i));
        message_error_stays(v.drop_last(), i);
    }
}

/// The reply to work that brings messages.
pub open spec fn messages_reply(v: Seq<Result<Vec<String>, String>>) -> Result<Json, Text> {
    match all_messages(v) {
        Ok(m) => Ok(text_array(m)),
        Err(e) => Err(e),
    }
}

/// The reply to work that brings messages, from what each unit brought.
pub fn reply_messages(v: &Vec<Result<Vec<String>, String>>) -> (r: Result<
    serde_json::Value,
    String,
>)
    ensures
        value_result(r) == messages_reply(v@),
{
    let mut out: Vec<String> = Vec::new();
    let mut i: usize = 0;
    proof {
        assert(v@.take(0) =~= seq![]);
        assert(texts(out@) =~= seq![]);
    }
    while i < v.len()
        invariant
            i <= v.len(),
            all_messages(v@.take(i as int)) == Ok::<Seq<Text>, Text>(texts(out@)),
        decreases v.len() - i,
    {
        let ghost upto = v@.take(i + 1);
        proof {
            assert(upto.drop_last() =~= v@.take(i as int));
            assert(upto.last() == v@[i as int]);
        }
        match &v[i] {
            Err(e) => {
                proof {
                    message_error_stays(v@, i + 1);
                }
                return Err(e.clone());
            },
            Ok(m) => {
                let ghost was = texts(out@);
                let mut k: usize = 0;
                assert(texts(out@) =~= was + texts(m@).take(0));
                while k < m.len()
                    invariant
                        k <= m.len(),
                        texts(out@) == was + texts(m@).take(k as int),
                    decreases m.len() - k,
                {
                    let ghost before = texts(out@);
                    out.push(m[k].clone());
                    assert(texts(out@) =~= before.push(m@[k as int]@));
                    assert(texts(m@).take(k + 1) =~= texts(m@).take(k as int).push(m@[k as int]@));
                    k = k + 1;
                    assert(texts(out@) =~= was + texts(m@).take(k as int));
                }
                assert(texts(m@).take(m.len() as int) =~= texts(m@));
            },
        }
        i = i + 1;
    }
    assert(v@.take(v.len() as int) =~= v@);
    Ok(texts_value(&out))
}

} // verus!
