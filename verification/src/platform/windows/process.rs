//! Process creation and supervision with job objects: what is refused, how a
//! process is set up, and which of them have ended how.

use vstd::prelude::*;

use crate::platform::signal::{Signal, SIGKILL};
use crate::text::{cat2, cat3, dec_int, decimal_int, owned, Text};
use crate::unit::values::{CgroupLimits, Rlimit, StdioTarget};

pub use crate::expand::{expand_env_argv, expand_env_token};

verus! {

pub type ListenHandle = usize;

/// How a process is to be created.
#[derive(Debug, Clone)]
pub struct SpawnOptions {
    pub argv: Vec<String>,
    pub env: Vec<(String, String)>,
    pub cwd: Option<String>,
    pub uid: Option<u32>,
    pub gid: Option<u32>,
    pub groups: Vec<u32>,
    pub nice: Option<i32>,
    pub umask: Option<u32>,
    pub rlimits: Vec<Rlimit>,
    pub stdout_target: StdioTarget,
    pub stderr_target: StdioTarget,
    pub stdin_null: bool,
    pub notify_socket: Option<String>,
    pub listen_fds: Vec<ListenHandle>,
    pub cgroup: Option<String>,
    pub limits: CgroupLimits,
    pub unit_name: String,
}

/// A process that was created.
#[derive(Debug, Clone, Copy, PartialEq, Eq, Structural)]
pub struct Spawned {
    pub pid: i32,
}

/// How a process has ended.
#[derive(Debug, Clone, Copy, PartialEq, Eq, Structural)]
pub enum ChildExit {
    Exited(i32),
    Signaled(i32),
}

/// There are no users to look up.
pub fn resolve_user(_name: &str) -> (r: Option<(u32, u32, Vec<u32>)>)
    ensures
        r is None,
{
    None
}

/// There are no groups to look up.
pub fn resolve_group(_name: &str) -> (r: Option<u32>)
    ensures
        r is None,
{
    None
}

// ---- creating -------------------------------------------------------------------

/// Why a process is not created.
#[derive(Debug, Clone, Copy, PartialEq, Eq, Structural)]
pub enum Refusal {
    /// There is no command.
    EmptyCommand,
    /// `User=` or `Group=` is set.
    Identity,
    /// `Nice=`, `UMask=` or a resource limit is set.
    Limits,
    /// The service is of the type `notify`.
    Notify,
}

/// Why a process is not created; the first reason counts.
pub open spec fn refusal_of(o: SpawnOptions) -> Option<Refusal> {
    if o.argv@.len() == 0 {
        Some(Refusal::EmptyCommand)
    } else if o.uid is Some || o.gid is Some || o.groups@.len() > 0 {
        Some(Refusal::Identity)
    } else if o.nice is Some || o.umask is Some || o.rlimits@.len() > 0 {
        Some(Refusal::Limits)
    } else if o.notify_socket is Some {
        Some(Refusal::Notify)
    } else {
        None
    }
}

/// Why a process is not created.
pub fn refusal(o: &SpawnOptions) -> (r: Option<Refusal>)
    ensures
        r == refusal_of(*o),
{
    if o.argv.len() == 0 {
        Some(Refusal::EmptyCommand)
    } else if o.uid.is_some() || o.gid.is_some() || o.groups.len() > 0 {
        Some(Refusal::Identity)
    } else if o.nice.is_some() || o.umask.is_some() || o.rlimits.len() > 0 {
        Some(Refusal::Limits)
    } else if o.notify_socket.is_some() {
        Some(Refusal::Notify)
    } else {
        None
    }
}

pub open spec fn refusal_text(r: Refusal) -> Text {
    match r {
        Refusal::EmptyCommand => "empty command"@,
        Refusal::Identity => "User=/Group="@ + " is not supported by the Windows manager MVP"@,
        Refusal::Limits => "Nice=/UMask=/Limit*="@
            + " is not supported by the Windows manager MVP"@,
        Refusal::Notify => "Type=notify"@ + " is not supported by the Windows manager MVP"@,
    }
}

fn unsupported(directive: &str) -> (r: String)
    ensures
        r@ == directive@ + " is not supported by the Windows manager MVP"@,
{
    cat2(directive, " is not supported by the Windows manager MVP")
}

impl Refusal {
    /// The message of the refusal.
    pub fn message(&self) -> (r: String)
        ensures
            r@ == refusal_text(*self),
    {
        match self {
            Refusal::EmptyCommand => owned("empty command"),
            Refusal::Identity => unsupported("User=/Group="),
            Refusal::Limits => unsupported("Nice=/UMask=/Limit*="),
            Refusal::Notify => unsupported("Type=notify"),
        }
    }
}

/// Where the output of a process goes.
#[derive(Debug, Clone, PartialEq, Eq)]
pub enum Output {
    /// To the manager.
    Piped,
    /// Nowhere.
    Null,
    /// To the end of a file.
    Append(String),
}

/// Where the output of a process goes.
pub fn configure_stdio(target: &StdioTarget) -> (r: Output)
    ensures
        match *target {
            StdioTarget::Journal => r is Piped,
            StdioTarget::Inherit => r is Piped,
            StdioTarget::Discard => r is Null,
            StdioTarget::File(p) => r is Append && (r->Append_0)@ == p@,
        },
{
    match target {
        StdioTarget::Journal => Output::Piped,
        StdioTarget::Inherit => Output::Piped,
        StdioTarget::Discard => Output::Null,
        StdioTarget::File(p) => Output::Append(p.clone()),
    }
}

/// The limits of a job object. A limit that is not set does not apply.
#[derive(Debug, Clone, Copy, PartialEq, Eq, Structural)]
pub struct JobLimits {
    pub memory: Option<u64>,
    pub processes: Option<u32>,
}

/// A limit that is the largest number is none.
pub open spec fn limit_of(n: Option<u64>) -> Option<u64> {
    match n {
        Some(x) => if x == u64::MAX {
            None
        } else {
            Some(x)
        },
        None => None,
    }
}

fn limit(n: Option<u64>) -> (r: Option<u64>)
    ensures
        r == limit_of(n),
{
    match n {
        Some(x) => if x == u64::MAX {
            None
        } else {
            Some(x)
        },
        None => None,
    }
}

/// The limits of the job object of a unit. A number of processes that is too
/// large is cut to the largest.
pub fn create_job(limits: &CgroupLimits) -> (r: JobLimits)
    ensures
        r.memory == limit_of(limits.memory_max),
        r.processes == (match limit_of(limits.tasks_max) {
            Some(n) => if n > u32::MAX {
                Some(u32::MAX)
            } else {
                Some(n as u32)
            },
            None => None,
        }),
{
    let processes: Option<u32> = match limit(limits.tasks_max) {
        Some(n) => if n > u32::MAX as u64 {
            Some(u32::MAX)
        } else {
            Some(n as u32)
        },
        None => None,
    };
    JobLimits { memory: limit(limits.memory_max), processes }
}

// ---- supervising ----------------------------------------------------------------

/// The processes that are supervised, each with the signal that it was ended
/// with.
pub struct Children {
    entries: Vec<(i32, Option<i32>)>,
}

/// The processes, each with its signal, as a map.
pub open spec fn children_map(v: Seq<(i32, Option<i32>)>) -> Map<i32, Option<i32>>
    decreases v.len(),
{
    if v.len() == 0 {
        Map::empty()
    } else {
        children_map(v.drop_last()).insert(v.last().0, v.last().1)
    }
}

/// Does no process occur twice?
pub open spec fn distinct_pids(v: Seq<(i32, Option<i32>)>) -> bool {
    forall|i: int, j: int| 0 <= i < j < v.len() ==> (#[trigger] v[i]).0 != (#[trigger] v[j]).0
}

proof fn map_holds(v: Seq<(i32, Option<i32>)>, i: int)
    requires
        distinct_pids(v),
        0 <= i < v.len(),
    ensures
        children_map(v).contains_key(v[i].0),
        children_map(v)[v[i].0] == v[i].1,
    decreases v.len(),
{
    if i < v.len() - 1 {
        assert(v.drop_last()[i] == v[i]);
        assert(distinct_pids(v.drop_last())) by {
            assert forall|a: int, b: int| 0 <= a < b < v.drop_last().len() implies (
            #[trigger] v.drop_last()[a]).0 != (#[trigger] v.drop_last()[b]).0 by {
                assert(v[a].0 != v[b].0);
            }
        }
        map_holds(v.drop_last(), i);
        assert(v[i].0 != v[v.len() - 1].0);
    }
}

proof fn map_lacks(v: Seq<(i32, Option<i32>)>, pid: i32)
    requires
        forall|i: int| 0 <= i < v.len() ==> (#[trigger] v[i]).0 != pid,
    ensures
        !children_map(v).contains_key(pid),
    decreases v.len(),
{
    if v.len() > 0 {
        assert(v[v.len() - 1].0 != pid);
        assert forall|i: int| 0 <= i < v.drop_last().len() implies (
        #[trigger] v.drop_last()[i]).0 != pid by {
            assert(v[i].0 != pid);
        }
        map_lacks(v.drop_last(), pid);
    }
}

proof fn map_without(v: Seq<(i32, Option<i32>)>, k: int)
    requires
        distinct_pids(v),
        0 <= k < v.len(),
    ensures
        distinct_pids(v.remove(k)),
        children_map(v.remove(k)) == children_map(v).remove(v[k].0),
{
    let w = v.remove(k);
    assert forall|a: int, b: int| 0 <= a < b < w.len() implies (#[trigger] w[a]).0 != (
    #[trigger] w[b]).0 by {
        let x: int = if a < k {
            a
        } else {
            a + 1
        };
        let y: int = if b < k {
            b
        } else {
            b + 1
        };
        assert(w[a] == v[x] && w[b] == v[y]);
    }
    let left = children_map(w);
    let right = children_map(v).remove(v[k].0);
    assert forall|p: i32|
        #[trigger] left.contains_key(p) == right.contains_key(p) && (left.contains_key(p)
            ==> left[p] == right[p]) by {
        if exists|i: int| 0 <= i < w.len() && (#[trigger] w[i]).0 == p {
            let i = choose|i: int| 0 <= i < w.len() && (#[trigger] w[i]).0 == p;
            let x: int = if i < k {
                i
            } else {
                i + 1
            };
            assert(w[i] == v[x]);
            map_holds(w, i);
            map_holds(v, x);
            assert(v[x].0 != v[k].0);
        } else {
            map_lacks(w, p);
            if p != v[k].0 {
                assert forall|i: int| 0 <= i < v.len() implies (#[trigger] v[i]).0 != p by {
                    if i != k {
                        let x: int = if i < k {
                            i
                        } else {
                            i - 1
                        };
                        assert(w[x] == v[i]);
                    }
                }
                map_lacks(v, p);
            }
        }
    }
    assert(left.dom() =~= right.dom());
    assert(left =~= right);
}

impl View for Children {
    type V = Map<i32, Option<i32>>;

    closed spec fn view(&self) -> Map<i32, Option<i32>> {
        children_map(self.entries@)
    }
}

/// The code that a job is ended with.
pub open spec fn end_code(signal: int) -> u32 {
    if signal == SIGKILL {
        137u32
    } else {
        143u32
    }
}

/// The ends of processes that have ended, from their exit codes: a process
/// that was ended with a signal counts as such.
pub open spec fn exit_of(signal: Option<i32>, code: Option<i32>) -> ChildExit {
    match signal {
        Some(s) => ChildExit::Signaled(s),
        None => ChildExit::Exited(
            match code {
                Some(c) => c,
                None => 1,
            },
        ),
    }
}

/// A process that was found to have ended, with its exit code where it has one.
#[derive(Debug, Clone, Copy, PartialEq, Eq, Structural)]
pub struct Ended {
    pub pid: i32,
    pub code: Option<i32>,
}

/// What is reported of the ended processes: those that are supervised, each
/// once.
pub open spec fn reaped(m: Map<i32, Option<i32>>, v: Seq<Ended>) -> (
    Map<i32, Option<i32>>,
    Seq<(i32, ChildExit)>,
)
    decreases v.len(),
{
    if v.len() == 0 {
        (m, seq![])
    } else {
        let (rest, out) = reaped(m, v.drop_last());
        let e = v.last();
        if rest.contains_key(e.pid) {
            (rest.remove(e.pid), out.push((e.pid, exit_of(rest[e.pid], e.code))))
        } else {
            (rest, out)
        }
    }
}

impl Children {
    #[verifier::type_invariant]
    spec fn well_formed(self) -> bool {
        distinct_pids(self.entries@)
    }

    /// No processes.
    pub fn new() -> (r: Children)
        ensures
            r@ == Map::<i32, Option<i32>>::empty(),
    {
        Children { entries: Vec::new() }
    }

    fn index_of(&self, pid: i32) -> (r: Option<usize>)
        ensures
            match r {
                Some(i) => i < self.entries.len() && self.entries[i as int].0 == pid,
                None => forall|i: int|
                    0 <= i < self.entries.len() ==> (#[trigger] self.entries@[i]).0 != pid,
            },
    {
        let mut i: usize = 0;
        while i < self.entries.len()
            invariant
                i <= self.entries.len(),
                forall|j: int| 0 <= j < i ==> (#[trigger] self.entries@[j]).0 != pid,
            decreases self.entries.len() - i,
        {
            if self.entries[i].0 == pid {
                return Some(i);
            }
            i = i + 1;
        }
        None
    }

    fn take(&mut self, pid: i32) -> (r: Option<Option<i32>>)
        ensures
            match r {
                Some(s) => old(self)@.contains_key(pid) && s == old(self)@[pid] && final(self)@
                    == old(self)@.remove(pid),
                None => !old(self)@.contains_key(pid) && final(self)@ == old(self)@,
            },
    {
        proof {
            use_type_invariant(&*self);
        }
        match self.index_of(pid) {
            Some(i) => {
                proof {
                    map_holds(self.entries@, i as int);
                    map_without(self.entries@, i as int);
                }
                let mut entries: Vec<(i32, Option<i32>)> = Vec::new();
                std::mem::swap(&mut entries, &mut self.entries);
                let (_, s) = entries.remove(i);
                self.entries = entries;
                Some(s)
            },
            None => {
                proof {
                    map_lacks(self.entries@, pid);
                }
                None
            },
        }
    }

    fn put(&mut self, pid: i32, signal: Option<i32>)
        requires
            !old(self)@.contains_key(pid),
        ensures
            final(self)@ == old(self)@.insert(pid, signal),
    {
        proof {
            use_type_invariant(&*self);
            assert forall|i: int| 0 <= i < self.entries@.len() implies (
            #[trigger] self.entries@[i]).0 != pid by {
                map_holds(self.entries@, i);
            }
        }
        let mut entries: Vec<(i32, Option<i32>)> = Vec::new();
        std::mem::swap(&mut entries, &mut self.entries);
        let ghost was = entries@;
        entries.push((pid, signal));
        proof {
            assert(entries@.drop_last() =~= was);
            assert forall|a: int, b: int| 0 <= a < b < entries@.len() implies (
            #[trigger] entries@[a]).0 != (#[trigger] entries@[b]).0 by {
                if b < was.len() {
                    assert(was[a].0 != was[b].0);
                } else {
                    assert(was[a].0 != pid);
                }
            }
        }
        self.entries = entries;
    }

    /// Supervise a process that was created.
    pub fn add(&mut self, child: Spawned)
        ensures
            final(self)@ == old(self)@.insert(child.pid, None),
    {
        let _ = self.take(child.pid);
        self.put(child.pid, None);
        assert(self@ =~= old(self)@.insert(child.pid, None));
    }

    /// The code that the job of a process is to be ended with.
    pub fn kill_group(&self, group_pid: i32, signal: Signal) -> (r: Result<u32, String>)
        ensures
            match r {
                Ok(code) => self@.contains_key(group_pid) && code == end_code(signal.raw()),
                Err(e) => !self@.contains_key(group_pid) && e@ == "process "@ + decimal_int(
                    group_pid as int,
                ) + " is not tracked"@,
            },
    {
        if self.tracks(group_pid) {
            if signal.as_raw() == SIGKILL {
                Ok(137)
            } else {
                Ok(143)
            }
        } else {
            Err(cat3("process ", dec_int(group_pid as i64).as_str(), " is not tracked"))
        }
    }

    /// The job of a process was ended with a signal.
    pub fn killed(&mut self, group_pid: i32, signal: Signal)
        ensures
            final(self)@ == (if old(self)@.contains_key(group_pid) {
                old(self)@.insert(group_pid, Some(signal.raw() as i32))
            } else {
                old(self)@
            }),
    {
        match self.take(group_pid) {
            Some(_) => {
                self.put(group_pid, Some(signal.as_raw()));
                assert(self@ =~= old(self)@.insert(group_pid, Some(signal.raw() as i32)));
            },
            None => {},
        }
    }

    /// Is the process supervised?
    pub fn tracks(&self, pid: i32) -> (r: bool)
        ensures
            r == self@.contains_key(pid),
    {
        proof {
            use_type_invariant(self);
        }
        match self.index_of(pid) {
            Some(i) => {
                proof {
                    map_holds(self.entries@, i as int);
                }
                true
            },
            None => {
                proof {
                    map_lacks(self.entries@, pid);
                }
                false
            },
        }
    }

    /// Is the process supervised, and has it not ended?
    pub fn group_alive(&self, group_pid: i32, ended: bool) -> (r: bool)
        ensures
            r == (self@.contains_key(group_pid) && !ended),
    {
        self.tracks(group_pid) && !ended
    }

    /// Take the processes that have ended out, and say how they ended.
    pub fn reap_children(&mut self, ended: &Vec<Ended>) -> (r: Vec<(i32, ChildExit)>)
        ensures
            (final(self)@, r@) == reaped(old(self)@, ended@),
    {
        let ghost first = self@;
        let mut out: Vec<(i32, ChildExit)> = Vec::new();
        let mut i: usize = 0;
        assert(ended@.take(0) =~= seq![]);
        while i < ended.len()
            invariant
                i <= ended.len(),
                (self@, out@) == reaped(first, ended@.take(i as int)),
            decreases ended.len() - i,
        {
            let ghost upto = ended@.take(i + 1);
            proof {
                assert(upto.drop_last() =~= ended@.take(i as int));
                assert(upto.last() == ended@[i as int]);
            }
            let e = ended[i];
            match self.take(e.pid) {
                Some(s) => {
                    let exit = match s {
                        Some(n) => ChildExit::Signaled(n),
                        None => ChildExit::Exited(
                            match e.code {
                                Some(c) => c,
                                None => 1,
                            },
                        ),
                    };
                    out.push((e.pid, exit));
                },
                None => {},
            }
            i = i + 1;
        }
        assert(ended@.take(ended.len() as int) =~= ended@);
        out
    }
}

/// Processes are adopted by no one: there is nothing to set.
pub fn set_subreaper() {
}

/// An ended process is reported once: it is no longer supervised then.
pub proof fn reaped_once(m: Map<i32, Option<i32>>, v: Seq<Ended>, i: int)
    requires
        0 <= i < v.len(),
    ensures
        !reaped(m, v).0.contains_key(v[i].pid),
    decreases v.len(),
{
    if i < v.len() - 1 {
        assert(v.drop_last()[i] == v[i]);
        reaped_once(m, v.drop_last(), i);
    }
}

/// What the manager cannot do on Windows it refuses: what is set decides, in this
/// order.
pub proof fn what_is_set_is_refused(o: SpawnOptions)
    ensures
        refusal_of(o) == Some(Refusal::EmptyCommand) <==> o.argv@.len() == 0,
        refusal_of(o) == Some(Refusal::Identity) <==> o.argv@.len() > 0 && (o.uid is Some || o.gid
            is Some || o.groups@.len() > 0),
        refusal_of(o) is None <==> o.argv@.len() > 0 && o.uid is None && o.gid is None
            && o.groups@.len() == 0 && o.nice is None && o.umask is None && o.rlimits@.len() == 0
            && o.notify_socket is None,
        refusal_of(o) == Some(Refusal::Notify) ==> o.notify_socket is Some,
        refusal_of(o) == Some(Refusal::Limits) ==> o.nice is Some || o.umask is Some
            || o.rlimits@.len() > 0,
        refusal_text(Refusal::EmptyCommand) == "empty command"@,
        refusal_text(Refusal::Identity) == "User=/Group="@
            + " is not supported by the Windows manager MVP"@,
        refusal_text(Refusal::Limits) == "Nice=/UMask=/Limit*="@
            + " is not supported by the Windows manager MVP"@,
        refusal_text(Refusal::Notify) == "Type=notify"@
            + " is not supported by the Windows manager MVP"@,
{
}

/// A process that is killed ends with the code that stands for the signal: 128 and its
/// number, of the two signals that there are.
pub proof fn killed_processes_end_with_these_codes(signal: int, code: i32, s: i32)
    ensures
        signal == 9 ==> end_code(signal) == 128 + 9,
        signal != 9 ==> end_code(signal) == 128 + 15,
        exit_of(Some(s), Some(code)) == ChildExit::Signaled(s),
        exit_of(Some(s), None) == ChildExit::Signaled(s),
        exit_of(None, Some(code)) == ChildExit::Exited(code),
        exit_of(None, None) == ChildExit::Exited(1),
{
}

/// A limit of `infinity` is none.
pub proof fn infinite_limits_are_none(n: u64)
    ensures
        limit_of(None) is None,
        n == 0xffff_ffff_ffff_ffff ==> limit_of(Some(n)) is None,
        n < 0xffff_ffff_ffff_ffff ==> limit_of(Some(n)) == Some(n),
{
}

/// Each process that ended is reported once, with how it ended; others are passed
/// over.
pub proof fn ended_processes_are_reported(m: Map<i32, Option<i32>>, v: Seq<Ended>, e: Ended)
    ensures
        reaped(m, v).0.contains_key(e.pid) ==> reaped(m, v.push(e)) == (
            reaped(m, v).0.remove(e.pid),
            reaped(m, v).1.push((e.pid, exit_of(reaped(m, v).0[e.pid], e.code))),
        ),
        !reaped(m, v).0.contains_key(e.pid) ==> reaped(m, v.push(e)) == reaped(m, v),
        reaped(m, seq![]).0 == m,
        reaped(m, seq![]).1.len() == 0,
{
    assert(v.push(e).drop_last() =~= v);
}

} // verus!
