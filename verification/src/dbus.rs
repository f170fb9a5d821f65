//! The bridge to D-Bus: which bus names have found an owner, and what the
//! manager's replies mean to a caller on the bus.

use vstd::prelude::*;

use crate::table::{are_sorted_keys, sorted_keys, Table};
use crate::text::{cat2, cat3, cat5, owned, texts, Text};

verus! {

/// Well-known name of the manager on the bus.
pub const BUS_NAME: &'static str = "org.rustemd.Manager1";

/// Path of the object that serves the manager's interface.
pub const OBJECT_PATH: &'static str = "/org/rustemd/Manager1";

/// One unit's row.
#[derive(Debug, Clone, PartialEq, Eq)]
pub struct UnitEntry {
    pub name: String,
    pub load: String,
    pub active: String,
    pub sub: String,
    pub description: String,
}

/// A unit's `(name, load, active, sub, description)` on the wire.
pub type UnitRow = (String, String, String, String, String);

/// What is asked of the manager on the bus.
#[derive(Debug, Clone, PartialEq, Eq)]
pub enum DbOp {
    ListUnits,
    GetUnit(String),
    StartUnit(String),
    StopUnit(String),
}

/// A request, and the way back for its reply.
pub struct DbRequest<R> {
    pub reply: R,
    pub op: DbOp,
}

/// The manager's reply.
#[derive(Debug, Clone, PartialEq, Eq)]
pub enum DbReply {
    UnitList(Vec<UnitEntry>),
    Unit(Option<UnitEntry>),
    UnitStarted,
    UnitStopped,
    Error(String),
}

/// A name has found an owner, or lost it.
#[derive(Debug, Clone, PartialEq, Eq)]
pub enum DbEvent {
    NameAcquired(String),
    NameLost(String),
}

/// Which names are to be watched.
#[derive(Debug, Clone, PartialEq, Eq)]
pub enum DbWatch {
    Add(String),
    Remove(String),
}

/// The manager's side of the bridge.
pub struct DbusHandle<E, C, W> {
    pub events: E,
    pub commands: C,
    pub watch_tx: W,
}

// ---- replies --------------------------------------------------------------------

/// A row, as specifications see it.
pub open spec fn row_view(r: UnitRow) -> (Text, Text, Text, Text, Text) {
    (r.0@, r.1@, r.2@, r.3@, r.4@)
}

/// The row of a unit.
pub open spec fn row_of(e: UnitEntry) -> (Text, Text, Text, Text, Text) {
    (e.name@, e.load@, e.active@, e.sub@, e.description@)
}

fn row(e: &UnitEntry) -> (r: UnitRow)
    ensures
        row_view(r) == row_of(*e),
{
    (e.name.clone(), e.load.clone(), e.active.clone(), e.sub.clone(), e.description.clone())
}

/// What `ListUnits` returns, from the manager's reply or why there is none.
pub fn list_units(reply: &Result<DbReply, String>) -> (r: Result<Vec<UnitRow>, String>)
    ensures
        match *reply {
            Ok(DbReply::UnitList(rows)) => r is Ok && (r->Ok_0)@.len() == rows@.len() && (forall|
                i: int,
            |
                0 <= i < rows@.len() ==> row_view(#[trigger] (r->Ok_0)@[i]) == row_of(rows@[i])),
            Ok(_) => r is Err && (r->Err_0)@ == "unexpected reply"@,
            Err(e) => r is Err && (r->Err_0)@ == e@,
        },
{
    match reply {
        Ok(DbReply::UnitList(rows)) => {
            let mut out: Vec<UnitRow> = Vec::new();
            let mut i: usize = 0;
            while i < rows.len()
                invariant
                    i <= rows.len(),
                    out.len() == i,
                    forall|j: int|
                        0 <= j < i ==> row_view(#[trigger] out@[j]) == row_of(rows@[j]),
                decreases rows.len() - i,
            {
                out.push(row(&rows[i]));
                i = i + 1;
            }
            Ok(out)
        },
        Ok(_) => Err(owned("unexpected reply")),
        Err(e) => Err(e.clone()),
    }
}

/// What `GetUnit` returns.
pub fn get_unit(reply: &Result<DbReply, String>) -> (r: Result<UnitRow, String>)
    ensures
        match *reply {
            Ok(DbReply::Unit(Some(e))) => r is Ok && row_view(r->Ok_0) == row_of(e),
            Ok(DbReply::Unit(None)) => r is Err && (r->Err_0)@ == "no such unit"@,
            Ok(_) => r is Err && (r->Err_0)@ == "unexpected reply"@,
            Err(e) => r is Err && (r->Err_0)@ == e@,
        },
{
    match reply {
        Ok(DbReply::Unit(Some(e))) => Ok(row(e)),
        Ok(DbReply::Unit(None)) => Err(owned("no such unit")),
        Ok(_) => Err(owned("unexpected reply")),
        Err(e) => Err(e.clone()),
    }
}

/// What `StartUnit` returns.
pub fn start_unit(reply: &Result<DbReply, String>) -> (r: Result<(), String>)
    ensures
        match *reply {
            Ok(DbReply::UnitStarted) => r is Ok,
            Ok(DbReply::Error(e)) => r is Err && (r->Err_0)@ == e@,
            Ok(_) => r is Err && (r->Err_0)@ == "unexpected reply"@,
            Err(e) => r is Err && (r->Err_0)@ == e@,
        },
{
    match reply {
        Ok(DbReply::UnitStarted) => Ok(()),
        Ok(DbReply::Error(e)) => Err(e.clone()),
        Ok(_) => Err(owned("unexpected reply")),
        Err(e) => Err(e.clone()),
    }
}

/// What `StopUnit` returns.
pub fn stop_unit(reply: &Result<DbReply, String>) -> (r: Result<(), String>)
    ensures
        match *reply {
            Ok(DbReply::UnitStopped) => r is Ok,
            Ok(DbReply::Error(e)) => r is Err && (r->Err_0)@ == e@,
            Ok(_) => r is Err && (r->Err_0)@ == "unexpected reply"@,
            Err(e) => r is Err && (r->Err_0)@ == e@,
        },
{
    match reply {
        Ok(DbReply::UnitStopped) => Ok(()),
        Ok(DbReply::Error(e)) => Err(e.clone()),
        Ok(_) => Err(owned("unexpected reply")),
        Err(e) => Err(e.clone()),
    }
}

/// Why there is no reply.
#[derive(Debug, Clone, Copy, PartialEq, Eq, Structural)]
pub enum CallFault {
    /// The request could not be sent.
    Closed,
    /// No reply came in time.
    Timeout,
}

/// How many seconds a caller waits for the manager's reply.
pub const REPLY_SECS: u64 = 5;

/// How many milliseconds lie between two looks at the names.
pub const POLL_MILLIS: u64 = 100;

/// The manager's reply, or what a caller is told where there is none.
pub fn call(reply: Result<DbReply, CallFault>) -> (r: Result<DbReply, String>)
    ensures
        match reply {
            Ok(x) => r == Ok::<DbReply, String>(x),
            Err(CallFault::Closed) => r is Err && (r->Err_0)@ == "manager channel closed"@,
            Err(CallFault::Timeout) => r is Err && (r->Err_0)@
                == "manager did not reply (timeout)"@,
        },
{
    match reply {
        Ok(x) => Ok(x),
        Err(CallFault::Closed) => Err(owned("manager channel closed")),
        Err(CallFault::Timeout) => Err(owned("manager did not reply (timeout)")),
    }
}

// ---- the log --------------------------------------------------------------------

/// A step of setting the bridge up.
#[derive(Debug, Clone, Copy, PartialEq, Eq, Structural)]
pub enum BridgeStep {
    Connect,
    Register,
    RequestName,
    Proxy,
}

pub open spec fn bus_text(user: bool) -> Text {
    if user {
        "session"@
    } else {
        "system"@
    }
}

fn bus(user: bool) -> (r: &'static str)
    ensures
        r@ == bus_text(user),
{
    if user {
        "session"
    } else {
        "system"
    }
}

pub open spec fn failure_text(step: BridgeStep, user: bool, error: Text) -> Text {
    match step {
        BridgeStep::Connect => "D-Bus: failed to connect to "@ + bus_text(user) + " bus: "@ + error,
        BridgeStep::Register => "D-Bus: failed to register manager interface: "@ + error,
        BridgeStep::RequestName => "D-Bus: failed to request name "@ + BUS_NAME@ + ": "@ + error,
        BridgeStep::Proxy => "D-Bus: failed to create DBus proxy: "@ + error,
    }
}

/// What is logged when a step fails; the bridge is given up then.
pub fn failure_message(step: BridgeStep, user: bool, error: &str) -> (r: String)
    ensures
        r@ == failure_text(step, user, error@),
{
    match step {
        BridgeStep::Connect => cat2(
            cat3("D-Bus: failed to connect to ", bus(user), " bus: ").as_str(),
            error,
        ),
        BridgeStep::Register => cat2("D-Bus: failed to register manager interface: ", error),
        BridgeStep::RequestName => cat2(
            cat3("D-Bus: failed to request name ", BUS_NAME, ": ").as_str(),
            error,
        ),
        BridgeStep::Proxy => cat2("D-Bus: failed to create DBus proxy: ", error),
    }
}

/// What is logged when the bridge is up.
pub fn live_message(user: bool) -> (r: String)
    ensures
        r@ == "D-Bus: manager interface live at "@ + BUS_NAME@ + " ("@ + bus_text(user) + " bus)"@,
{
    cat5("D-Bus: manager interface live at ", BUS_NAME, " (", bus(user), " bus)")
}

// ---- watching names -------------------------------------------------------------

/// The names that are watched, each with whether it had an owner when it was
/// last looked at.
pub struct Watches {
    pub names: Table<bool>,
}

/// The names among these that have found an owner since they were last looked
/// at. Of a name that could not be looked at nothing is known.
pub open spec fn acquired(
    watched: Map<Text, bool>,
    owners: Map<Text, bool>,
    names: Seq<Text>,
) -> Seq<Text>
    decreases names.len(),
{
    if names.len() == 0 {
        seq![]
    } else {
        let n = names.last();
        let rest = acquired(watched, owners, names.drop_last());
        if owners.contains_key(n) && owners[n] && !watched[n] {
            rest.push(n)
        } else {
            rest
        }
    }
}

/// The names after they were looked at.
pub open spec fn polled(watched: Map<Text, bool>, owners: Map<Text, bool>) -> Map<Text, bool> {
    Map::new(
        |n: Text| watched.contains_key(n),
        |n: Text|
            if owners.contains_key(n) {
                owners[n]
            } else {
                watched[n]
            },
    )
}

/// The names after those of these were looked at.
pub open spec fn polled_upto(
    watched: Map<Text, bool>,
    owners: Map<Text, bool>,
    names: Seq<Text>,
) -> Map<Text, bool> {
    Map::new(
        |n: Text| watched.contains_key(n),
        |n: Text|
            if owners.contains_key(n) && names.contains(n) {
                owners[n]
            } else {
                watched[n]
            },
    )
}

impl Watches {
    /// No names.
    pub fn new() -> (r: Watches)
        ensures
            r.names@ == Map::<Text, bool>::empty(),
    {
        Watches { names: Table::new() }
    }

    /// Watch a name. `owner` says whether it has an owner now; where that could
    /// not be found out the name is not watched. A name that has one already is
    /// reported.
    pub fn add(&mut self, name: &str, owner: Option<bool>) -> (r: Option<DbEvent>)
        ensures
            final(self).names@ == (match owner {
                Some(now) => old(self).names@.insert(name@, now),
                None => old(self).names@,
            }),
            match r {
                Some(DbEvent::NameAcquired(n)) => owner == Some(true) && n@ == name@,
                Some(DbEvent::NameLost(_)) => false,
                None => owner != Some(true),
            },
    {
        match owner {
            Some(now) => {
                self.names.insert(owned(name), now);
                if now {
                    Some(DbEvent::NameAcquired(owned(name)))
                } else {
                    None
                }
            },
            None => None,
        }
    }

    /// Watch a name no longer.
    pub fn remove(&mut self, name: &str)
        ensures
            final(self).names@ == old(self).names@.remove(name@),
    {
        let _ = self.names.remove(name);
        assert(self.names@ =~= old(self).names@.remove(name@));
    }

    /// Look at all names: `owners` says of each whether it has an owner now.
    /// Those that have found one are reported, by name.
    pub fn poll(&mut self, owners: &Table<bool>) -> (r: Vec<String>)
        ensures
            final(self).names@ == polled(old(self).names@, owners@),
            texts(r@) == acquired(old(self).names@, owners@, sorted_keys(old(self).names@)),
    {
        let names = self.names.sorted_names();
        let ghost first = self.names@;
        let ghost all = texts(names@);
        let mut out: Vec<String> = Vec::new();
        let mut i: usize = 0;
        proof {
            assert(all.take(0) =~= seq![]);
            assert(texts(out@) =~= seq![]);
            assert(self.names@ =~= polled_upto(first, owners@, all.take(0)));
        }
        while i < names.len()
            invariant
                i <= names.len(),
                all == texts(names@),
                are_sorted_keys(first, all),
                self.names@ == polled_upto(first, owners@, all.take(i as int)),
                texts(out@) == acquired(first, owners@, all.take(i as int)),
            decreases names.len() - i,
        {
            let n = names[i].as_str();
            let ghost upto = all.take(i + 1);
            let ghost init = all.take(i as int);
            let ghost was = texts(out@);
            let ghost before = self.names@;
            proof {
                assert(all[i as int] == n@);
                assert(all.contains(n@));
                assert(upto.drop_last() =~= init);
                assert(upto.last() == n@);
                assert(!init.contains(n@)) by {
                    if init.contains(n@) {
                        let j = choose|j: int| 0 <= j < init.len() && init[j] == n@;
                        assert(all[j] == n@);
                    }
                }
                assert forall|k: Text| #[trigger] upto.contains(k) <==> (init.contains(k) || k
                    == n@) by {
                    if init.contains(k) {
                        let j = choose|j: int| 0 <= j < init.len() && init[j] == k;
                        assert(upto[j] == k);
                    }
                    if k == n@ {
                        assert(upto[i as int] == k);
                    }
                    if upto.contains(k) && k != n@ {
                        let j = choose|j: int| 0 <= j < upto.len() && upto[j] == k;
                        assert(init[j] == k);
                    }
                }
            }
            match owners.get(n) {
                Some(now) => {
                    let found = *now;
                    let had = match self.names.get(n) {
                        Some(x) => *x,
                        None => false,
                    };
                    assert(had == first[n@]);
                    if found && !had {
                        out.push(owned(n));
                        assert(texts(out@) =~= was.push(n@));
                    }
                    self.names.insert(owned(n), found);
                    assert(self.names@ =~= polled_upto(first, owners@, upto));
                },
                None => {
                    assert(self.names@ =~= polled_upto(first, owners@, upto));
                },
            }
            i = i + 1;
        }
        proof {
            assert(all.take(names.len() as int) =~= all);
            assert(polled_upto(first, owners@, all) =~= polled(first, owners@)) by {
                assert forall|k: Text| first.contains_key(k) implies all.contains(k) by {}
            }
        }
        out
    }
}

/// An acquired name is reported once: looking again, with the same owners,
/// reports nothing.
pub proof fn looking_again_reports_nothing(
    watched: Map<Text, bool>,
    owners: Map<Text, bool>,
    names: Seq<Text>,
)
    requires
        forall|i: int| 0 <= i < names.len() ==> watched.contains_key(#[trigger] names[i]),
    ensures
        acquired(polled(watched, owners), owners, names) == Seq::<Text>::empty(),
    decreases names.len(),
{
    if names.len() > 0 {
        assert forall|i: int| 0 <= i < names.drop_last().len() implies watched.contains_key(
            #[trigger] names.drop_last()[i],
        ) by {
            assert(names[i] == names.drop_last()[i]);
        }
        looking_again_reports_nothing(watched, owners, names.drop_last());
        assert(watched.contains_key(names[names.len() - 1]));
    }
}

/// A row has the unit's name, its load state, its active state, its sub-state and its
/// description, in this order.
pub proof fn rows_have_this_order(e: UnitEntry, r: UnitRow)
    requires
        row_view(r) == row_of(e),
    ensures
        r.0@ == e.name@,
        r.1@ == e.load@,
        r.2@ == e.active@,
        r.3@ == e.sub@,
        r.4@ == e.description@,
{
}

/// A user's manager is on the session bus, the system's on the system bus.
pub proof fn users_have_the_session_bus(user: bool)
    ensures
        bus_text(user) == "session"@ <==> user,
        bus_text(user) == "system"@ <==> !user,
{
    reveal_strlit("session");
    reveal_strlit("system");
    assert("session"@.len() == 7 && "system"@.len() == 6);
}

/// A name that is watched is reported when it has an owner and had none before; a
/// name whose owner is not known is not.
pub proof fn acquired_names_are_reported(
    watched: Map<Text, bool>,
    owners: Map<Text, bool>,
    names: Seq<Text>,
    n: Text,
)
    ensures
        acquired(watched, owners, names.push(n)) == if owners.contains_key(n) && owners[n]
            && !watched[n] {
            acquired(watched, owners, names).push(n)
        } else {
            acquired(watched, owners, names)
        },
        acquired(watched, owners, seq![]).len() == 0,
{
    assert(names.push(n).drop_last() =~= names);
}

/// What was last seen of a name is remembered, and nothing else is watched for it.
pub proof fn last_owners_are_remembered(
    watched: Map<Text, bool>,
    owners: Map<Text, bool>,
    n: Text,
)
    ensures
        polled(watched, owners).contains_key(n) <==> watched.contains_key(n),
        watched.contains_key(n) && owners.contains_key(n) ==> polled(watched, owners)[n]
            == owners[n],
        watched.contains_key(n) && !owners.contains_key(n) ==> polled(watched, owners)[n]
            == watched[n],
{
}

/// What is said of a step that failed: the step, and the error.
pub proof fn failures_name_the_step(user: bool, e: Text)
    ensures
        failure_text(BridgeStep::Connect, true, e) == "D-Bus: failed to connect to "@ + "session"@
            + " bus: "@ + e,
        failure_text(BridgeStep::Connect, false, e) == "D-Bus: failed to connect to "@ + "system"@
            + " bus: "@ + e,
        failure_text(BridgeStep::Register, user, e)
            == "D-Bus: failed to register manager interface: "@ + e,
        failure_text(BridgeStep::RequestName, user, e) == "D-Bus: failed to request name "@
            + "org.rustemd.Manager1"@ + ": "@ + e,
        failure_text(BridgeStep::Proxy, user, e) == "D-Bus: failed to create DBus proxy: "@ + e,
{
}

} // verus!
