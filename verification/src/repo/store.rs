//! The decisions of the unit store. The store keeps unit files in one or more
//! root directories, of which the first takes every change. Reading and writing
//! files is the caller's part: it hands over what the files hold and carries
//! out the changes.

use vstd::prelude::*;
use vstd::string::*;

use crate::order::{insert_named, labels, ordered, sorted, views, Named};
use crate::paths::{file_name, file_name_of};
use crate::repo::domain::{
    definition_of, document_text, plain, type_of_name, unknown_suffix, written_document_reads_back,
    Definition, UnitDefinition, UnitType,
};
use crate::repo::error::{outcome, Error, Fault};
use crate::text::{cat2, cat3, chr, contains_char, occurs, opt_text, owned, same, texts, Text};

verus! {

/// A change to the primary root.
#[derive(Debug, Clone, PartialEq, Eq)]
pub enum Step {
    /// Replace the file of that name atomically.
    Write { name: String, text: String },
    /// Remove the file of that name, if it is there.
    Delete { name: String },
}

/// A change, as specifications see it.
pub ghost enum Change {
    Write(Text, Text),
    Delete(Text),
}

impl View for Step {
    type V = Change;

    open spec fn view(&self) -> Change {
        match self {
            Step::Write { name, text } => Change::Write(name@, text@),
            Step::Delete { name } => Change::Delete(name@),
        }
    }
}

/// The files of a root after a change.
pub open spec fn changed(files: Map<Text, Text>, c: Change) -> Map<Text, Text> {
    match c {
        Change::Write(name, text) => files.insert(name, text),
        Change::Delete(name) => files.remove(name),
    }
}

/// What a root holds under a name.
pub open spec fn held(files: Map<Text, Text>, name: Text) -> Option<Text> {
    if files.contains_key(name) {
        Some(files[name])
    } else {
        None
    }
}

/// Why a name is refused.
pub open spec fn name_fault(name: Text) -> Option<Fault> {
    if name.len() == 0 || occurs(name, chr('/')) || occurs(name, chr('\\')) || name == "."@ || name
        == ".."@ {
        Some(Fault::InvalidName("unit name `"@ + name + "` is not a plain unit file name"@))
    } else if type_of_name(name) is None {
        Some(Fault::InvalidName(unknown_suffix(name)))
    } else {
        None
    }
}

/// Is the name that of a unit file, and no path?
pub fn validate_name(name: &str) -> (r: Result<(), Error>)
    ensures
        match r {
            Ok(_) => name_fault(name@) is None,
            Err(e) => name_fault(name@) == Some(e@),
        },
{
    if name.unicode_len() == 0 || contains_char(name, '/') || contains_char(name, '\\') || same(
        name,
        ".",
    ) || same(name, "..") {
        return Err(
            Error::InvalidName(cat3("unit name `", name, "` is not a plain unit file name")),
        );
    }
    if UnitType::from_unit_name(name).is_none() {
        return Err(
            Error::InvalidName(cat3("unit name `", name, "` has no recognized unit suffix")),
        );
    }
    Ok(())
}

/// The names among those in a directory that are names of unit files, in
/// order.
pub open spec fn unit_names(names: Seq<Text>) -> Seq<Text> {
    names.filter(|n: Text| type_of_name(n) is Some)
}

/// Keep the names of unit files, in order.
pub fn list_names(names: &Vec<String>) -> (r: Vec<String>)
    ensures
        ordered::<String>(views(r@), unit_names(views(names@))),
{
    broadcast use vstd::seq_lib::group_to_multiset_ensures;

    let mut out: Vec<String> = Vec::new();
    let mut i: usize = 0;
    proof {
        reveal(Seq::filter);
        assert(views(names@).take(0) =~= seq![]);
        assert(views(out@) =~= unit_names(views(names@).take(0)));
    }
    while i < names.len()
        invariant
            i <= names.len(),
            sorted(labels::<String>(views(out@))),
            views(out@).to_multiset() == unit_names(views(names@).take(i as int)).to_multiset(),
        decreases names.len() - i,
    {
        broadcast use vstd::seq_lib::group_to_multiset_ensures;

        proof {
            reveal(Seq::filter);
            let t = views(names@).take(i + 1);
            assert(t.drop_last() =~= views(names@).take(i as int));
            assert(t.last() == names@[i as int]@);
        }
        if UnitType::from_unit_name(names[i].as_str()).is_some() {
            insert_named(&mut out, names[i].clone());
        }
        i = i + 1;
    }
    assert(views(names@).take(names.len() as int) =~= views(names@));
    out
}

impl Named for UnitDefinition {
    open spec fn label(v: Definition) -> Text {
        v.name
    }

    fn name_of(&self) -> (r: &str) {
        self.name.as_str()
    }
}

/// A unit file that a root lists: its name, and its text unless it has gone
/// since.
#[derive(Debug, Clone, PartialEq, Eq)]
pub struct FoundUnit {
    pub name: String,
    pub text: Option<String>,
}

impl View for FoundUnit {
    type V = (Text, Option<Text>);

    open spec fn view(&self) -> (Text, Option<Text>) {
        (self.name@, opt_text(self.text))
    }
}

/// Does an earlier file have the name of the last one?
pub open spec fn shadowed(files: Seq<(Text, Option<Text>)>) -> bool {
    exists|i: int| 0 <= i < files.len() - 1 && (#[trigger] files[i]).0 == files.last().0
}

/// The definitions that files make, the first of each name, or the first
/// error among them.
pub open spec fn gathered(files: Seq<(Text, Option<Text>)>) -> Result<Seq<Definition>, Fault>
    decreases files.len(),
{
    if files.len() == 0 {
        Ok(seq![])
    } else {
        match gathered(files.drop_last()) {
            Err(e) => Err(e),
            Ok(v) => if shadowed(files) {
                Ok(v)
            } else {
                match files.last().1 {
                    None => Ok(v),
                    Some(text) => match definition_of(files.last().0, text) {
                        Ok(d) => Ok(v.push(d)),
                        Err(e) => Err(e),
                    },
                }
            },
        }
    }
}

proof fn gathered_error_stays(files: Seq<(Text, Option<Text>)>, i: int)
    requires
        0 <= i <= files.len(),
        gathered(files.take(i)) is Err,
    ensures
        gathered(files) == gathered(files.take(i)),
    decreases files.len(),
{
    if i == files.len() {
        assert(files.take(i) =~= files);
    } else {
        assert(files.drop_last().take(i) =~= files.take(i));
        gathered_error_stays(files.drop_last(), i);
    }
}

/// The first text that is there.
pub open spec fn first_text(found: Seq<Option<Text>>) -> Option<Text>
    decreases found.len(),
{
    if found.len() == 0 {
        None
    } else if found[0] is Some {
        found[0]
    } else {
        first_text(found.skip(1))
    }
}

/// What reading a unit gives, from what the roots hold under its name.
pub open spec fn read_result(name: Text, found: Seq<Option<Text>>) -> Result<
    Option<Definition>,
    Fault,
> {
    match name_fault(name) {
        Some(e) => Err(e),
        None => match first_text(found) {
            None => Ok(None),
            Some(text) => match definition_of(name, text) {
                Ok(d) => Ok(Some(d)),
                Err(e) => Err(e),
            },
        },
    }
}

/// What writing a unit does.
pub open spec fn write_result(unit: Definition) -> Result<Change, Fault> {
    match name_fault(unit.name) {
        Some(e) => Err(e),
        None => Ok(Change::Write(unit.name, document_text(unit.document))),
    }
}

/// What creating a unit does, from what the primary root holds under its name.
pub open spec fn create_result(unit: Definition, current: Option<Text>) -> Result<Change, Fault> {
    match (name_fault(unit.name), current) {
        (Some(e), _) => Err(e),
        (None, None) => write_result(unit),
        (None, Some(text)) => match definition_of(unit.name, text) {
            Ok(_) => Err(Fault::AlreadyExists(unit.name)),
            Err(e) => Err(e),
        },
    }
}

/// What updating a unit does, from what the primary root holds under its name.
pub open spec fn update_result(unit: Definition, current: Option<Text>) -> Result<Change, Fault> {
    match (name_fault(unit.name), current) {
        (Some(e), _) => Err(e),
        (None, None) => Err(Fault::NotFound(unit.name)),
        (None, Some(text)) => match definition_of(unit.name, text) {
            Ok(_) => write_result(unit),
            Err(e) => Err(e),
        },
    }
}

/// What deleting a unit does.
pub open spec fn delete_result(name: Text) -> Result<Change, Fault> {
    match name_fault(name) {
        Some(e) => Err(e),
        None => Ok(Change::Delete(name)),
    }
}

/// What a mutation does with what the caller made of the unit.
pub open spec fn mutated(name: Text, unit: Option<Definition>) -> Result<Change, Fault> {
    match unit {
        Some(u) => if u.name != name {
            Err(Fault::InvalidName("mutate closure changed the unit name"@))
        } else {
            Ok(Change::Write(u.name, document_text(u.document)))
        },
        None => Ok(Change::Delete(name)),
    }
}

/// An optional definition, as specifications see it.
pub open spec fn opt_view(u: Option<UnitDefinition>) -> Option<Definition> {
    match u {
        Some(d) => Some(d@),
        None => None,
    }
}

/// The unit repository.
pub struct Repo {
    roots: Vec<String>,
}

impl Repo {
    #[verifier::type_invariant]
    spec fn well_formed(self) -> bool {
        self.roots.len() > 0
    }

    /// The root directories, the primary one first.
    pub closed spec fn paths(self) -> Seq<Text> {
        texts(self.roots@)
    }

    /// A repository with one root.
    pub fn open(root: String) -> (r: Repo)
        ensures
            r.paths() == seq![root@],
    {
        let mut roots: Vec<String> = Vec::new();
        roots.push(root);
        let r = Repo { roots };
        assert(r.paths() =~= seq![root@]);
        r
    }

    /// A repository with several roots, the primary one first.
    pub fn open_roots(roots: Vec<String>) -> (r: Result<Repo, Error>)
        ensures
            match r {
                Ok(repo) => roots.len() > 0 && repo.paths() == texts(roots@),
                Err(e) => roots.len() == 0 && e@ == Fault::InvalidName(
                    "repository needs at least one root"@,
                ),
            },
    {
        if roots.len() == 0 {
            Err(Error::InvalidName(owned("repository needs at least one root")))
        } else {
            Ok(Repo { roots })
        }
    }

    /// The primary root.
    pub fn root(&self) -> (r: &str)
        ensures
            self.paths().len() > 0,
            r@ == self.paths()[0],
    {
        proof {
            use_type_invariant(self);
        }
        self.roots[0].as_str()
    }

    /// All roots, the primary one first.
    pub fn roots(&self) -> (r: &Vec<String>)
        ensures
            r.len() > 0,
            texts(r@) == self.paths(),
    {
        proof {
            use_type_invariant(self);
        }
        &self.roots
    }

    /// The units that the roots hold, by name. `found` has the unit files of
    /// all roots, those of an earlier root first; of a name that occurs more
    /// than once the first counts.
    pub fn list(&self, found: &Vec<FoundUnit>) -> (r: Result<Vec<UnitDefinition>, Error>)
        ensures
            match r {
                Ok(v) => gathered(views(found@)) is Ok && ordered::<UnitDefinition>(
                    views(v@),
                    gathered(views(found@))->Ok_0,
                ),
                Err(e) => gathered(views(found@)) == Err::<Seq<Definition>, Fault>(e@),
            },
    {
        broadcast use vstd::seq_lib::group_to_multiset_ensures;

        let mut out: Vec<UnitDefinition> = Vec::new();
        let mut i: usize = 0;
        proof {
            assert(views(found@).take(0) =~= seq![]);
            assert(views(out@) =~= seq![]);
        }
        while i < found.len()
            invariant
                i <= found.len(),
                sorted(labels::<UnitDefinition>(views(out@))),
                gathered(views(found@).take(i as int)) is Ok,
                views(out@).to_multiset() == (gathered(
                    views(found@).take(i as int),
                )->Ok_0).to_multiset(),
            decreases found.len() - i,
        {
            broadcast use vstd::seq_lib::group_to_multiset_ensures;

            let ghost all = views(found@);
            let ghost upto = all.take(i + 1);
            proof {
                assert(upto.drop_last() =~= all.take(i as int));
                assert(upto.last() == found@[i as int]@);
            }
            let mut seen = false;
            let mut j: usize = 0;
            while j < i
                invariant
                    j <= i < found.len(),
                    upto == views(found@).take(i + 1),
                    seen == exists|k: int| 0 <= k < j && (#[trigger] upto[k]).0 == upto.last().0,
                decreases i - j,
            {
                let hit = same(found[j].name.as_str(), found[i].name.as_str());
                assert(upto[j as int].0 == found@[j as int].name@);
                assert(upto.last().0 == found@[i as int].name@);
                seen = seen || hit;
                j = j + 1;
            }
            assert(seen == shadowed(upto));
            if !seen {
                match &found[i].text {
                    None => {},
                    Some(text) => {
                        match UnitDefinition::parse(found[i].name.as_str(), text.as_str()) {
                            Ok(unit) => {
                                insert_named(&mut out, unit);
                            },
                            Err(e) => {
                                proof {
                                    gathered_error_stays(all, i + 1);
                                }
                                return Err(e);
                            },
                        }
                    },
                }
            }
            i = i + 1;
        }
        assert(views(found@).take(found.len() as int) =~= views(found@));
        Ok(out)
    }

    /// The unit of that name. `found` has what each root holds under the name,
    /// in the order of the roots; the first one counts.
    pub fn read(&self, name: &str, found: &Vec<Option<String>>) -> (r: Result<
        Option<UnitDefinition>,
        Error,
    >)
        ensures
            match r {
                Ok(u) => read_result(
                    name@,
                    Seq::new(found.len() as nat, |i: int| opt_text(found[i])),
                ) == Ok::<Option<Definition>, Fault>(opt_view(u)),
                Err(e) => read_result(
                    name@,
                    Seq::new(found.len() as nat, |i: int| opt_text(found[i])),
                ) == Err::<Option<Definition>, Fault>(e@),
            },
    {
        match validate_name(name) {
            Err(e) => {
                return Err(e);
            },
            Ok(_) => {},
        }
        let ghost all = Seq::new(found.len() as nat, |i: int| opt_text(found[i]));
        let mut i: usize = 0;
        assert(all.skip(0) =~= all);
        while i < found.len()
            invariant
                i <= found.len(),
                all == Seq::new(found.len() as nat, |i: int| opt_text(found[i])),
                name_fault(name@) is None,
                first_text(all) == first_text(all.skip(i as int)),
            decreases found.len() - i,
        {
            assert(all.skip(i as int)[0] == opt_text(found[i as int]));
            match &found[i] {
                Some(text) => {
                    return match UnitDefinition::parse(name, text.as_str()) {
                        Ok(u) => Ok(Some(u)),
                        Err(e) => Err(e),
                    };
                },
                None => {},
            }
            assert(all.skip(i as int).skip(1) =~= all.skip(i + 1));
            i = i + 1;
        }
        Ok(None)
    }

    /// The unit of a file, from the file's path and its text, or why it could
    /// not be read.
    pub fn read_path(&self, path: &str, text: &Result<String, String>) -> (r: Result<
        UnitDefinition,
        Error,
    >)
        ensures
            outcome(r) == (match file_name_of(path@) {
                None => Err::<Definition, Fault>(
                    Fault::InvalidName(path@ + " is not a unit file name"@),
                ),
                Some(name) => match *text {
                    Err(e) => Err(Fault::Io(e@)),
                    Ok(t) => definition_of(name, t@),
                },
            }),
    {
        match file_name(path) {
            None => Err(Error::InvalidName(cat2(path, " is not a unit file name"))),
            Some(name) => match text {
                Err(e) => Err(Error::Io(e.clone())),
                Ok(t) => UnitDefinition::parse(name.as_str(), t.as_str()),
            },
        }
    }

    /// Write a unit, whether it is there or not.
    pub fn write(&self, unit: &UnitDefinition) -> (r: Result<Step, Error>)
        ensures
            outcome(r) == write_result(unit@),
    {
        match validate_name(unit.name.as_str()) {
            Err(e) => Err(e),
            Ok(_) => Ok(Step::Write { name: unit.name.clone(), text: unit.to_text() }),
        }
    }

    /// Write a unit that is not there yet. `current` is what the primary root
    /// holds under its name.
    pub fn create(&self, unit: &UnitDefinition, current: Option<String>) -> (r: Result<Step, Error>)
        ensures
            outcome(r) == create_result(unit@, opt_text(current)),
    {
        match validate_name(unit.name.as_str()) {
            Err(e) => {
                return Err(e);
            },
            Ok(_) => {},
        }
        match current {
            Some(text) => match UnitDefinition::parse(unit.name.as_str(), text.as_str()) {
                Ok(_) => Err(Error::AlreadyExists(unit.name.clone())),
                Err(e) => Err(e),
            },
            None => Ok(Step::Write { name: unit.name.clone(), text: unit.to_text() }),
        }
    }

    /// Write a unit that is there. `current` is what the primary root holds
    /// under its name.
    pub fn update(&self, unit: &UnitDefinition, current: Option<String>) -> (r: Result<Step, Error>)
        ensures
            outcome(r) == update_result(unit@, opt_text(current)),
    {
        match validate_name(unit.name.as_str()) {
            Err(e) => {
                return Err(e);
            },
            Ok(_) => {},
        }
        match current {
            Some(text) => match UnitDefinition::parse(unit.name.as_str(), text.as_str()) {
                Ok(_) => Ok(Step::Write { name: unit.name.clone(), text: unit.to_text() }),
                Err(e) => Err(e),
            },
            None => Err(Error::NotFound(unit.name.clone())),
        }
    }

    /// Remove a unit; nothing happens where it is not there.
    pub fn delete(&self, name: &str) -> (r: Result<Step, Error>)
        ensures
            outcome(r) == delete_result(name@),
    {
        match validate_name(name) {
            Err(e) => Err(e),
            Ok(_) => Ok(Step::Delete { name: owned(name) }),
        }
    }

    /// Replace a unit by what `f` makes of it; where that is nothing, remove
    /// it. `current` is what the primary root holds under its name.
    pub fn mutate<F: FnOnce(Option<UnitDefinition>) -> Option<UnitDefinition>>(
        &self,
        name: &str,
        current: Option<String>,
        f: F,
    ) -> (r: Result<Step, Error>)
        requires
            forall|u: Option<UnitDefinition>| call_requires(f, (u,)),
        ensures
            match read_result(name@, seq![opt_text(current)]) {
                Err(e) => outcome(r) == Err::<Change, Fault>(e),
                Ok(d) => exists|u: Option<UnitDefinition>, v: Option<UnitDefinition>|
                    opt_view(u) == d && #[trigger] call_ensures(f, (u,), v) && outcome(r)
                        == mutated(name@, opt_view(v)),
            },
    {
        proof {
            assert(seq![opt_text(current)].skip(1) =~= seq![]);
            assert(first_text(Seq::<Option<Text>>::empty()) is None);
            assert(first_text(seq![opt_text(current)]) == opt_text(current));
        }
        match validate_name(name) {
            Err(e) => {
                return Err(e);
            },
            Ok(_) => {},
        }
        let unit = match current {
            None => None,
            Some(text) => match UnitDefinition::parse(name, text.as_str()) {
                Ok(u) => Some(u),
                Err(e) => {
                    return Err(e);
                },
            },
        };
        match f(unit) {
            Some(u) => {
                if !same(u.name.as_str(), name) {
                    return Err(Error::InvalidName(owned("mutate closure changed the unit name")));
                }
                let text = u.to_text();
                Ok(Step::Write { name: u.name, text })
            },
            None => Ok(Step::Delete { name: owned(name) }),
        }
    }
}

// ---- laws -----------------------------------------------------------------------

/// A unit that can be written reads back as it was written, whatever the
/// primary root held before and the other roots hold.
pub proof fn written_unit_reads_back(
    files: Map<Text, Text>,
    unit: Definition,
    others: Seq<Option<Text>>,
)
    requires
        name_fault(unit.name) is None,
        type_of_name(unit.name) == Some(unit.kind),
        plain(unit.document),
    ensures
        write_result(unit) is Ok,
        read_result(
            unit.name,
            seq![held(changed(files, write_result(unit)->Ok_0), unit.name)] + others,
        ) == Ok::<Option<Definition>, Fault>(Some(unit)),
{
    written_document_reads_back(unit.document);
}

/// A unit that was created cannot be created again, and can be updated.
pub proof fn created_unit_is_there(files: Map<Text, Text>, unit: Definition, later: Definition)
    requires
        name_fault(unit.name) is None,
        type_of_name(unit.name) == Some(unit.kind),
        plain(unit.document),
        !files.contains_key(unit.name),
        later.name == unit.name,
    ensures
        create_result(unit, held(files, unit.name)) == write_result(unit),
        ({
            let now = changed(files, create_result(unit, held(files, unit.name))->Ok_0);
            &&& create_result(later, held(now, unit.name)) == Err::<Change, Fault>(
                Fault::AlreadyExists(unit.name),
            )
            &&& update_result(later, held(now, unit.name)) == write_result(later)
        }),
{
    written_document_reads_back(unit.document);
}

/// A deleted unit is gone from the primary root, cannot be updated, and
/// deleting it again changes nothing.
pub proof fn deleted_unit_is_gone(files: Map<Text, Text>, unit: Definition)
    requires
        name_fault(unit.name) is None,
    ensures
        ({
            let once = changed(files, delete_result(unit.name)->Ok_0);
            &&& delete_result(unit.name) is Ok
            &&& held(once, unit.name) is None
            &&& update_result(unit, held(once, unit.name)) == Err::<Change, Fault>(
                Fault::NotFound(unit.name),
            )
            &&& changed(once, delete_result(unit.name)->Ok_0) == once
        }),
{
    let once = changed(files, delete_result(unit.name)->Ok_0);
    assert(changed(once, delete_result(unit.name)->Ok_0) =~= once);
}

/// A change touches no file but the one it names.
pub proof fn change_is_local(files: Map<Text, Text>, c: Change, name: Text)
    requires
        match c {
            Change::Write(n, _) => n != name,
            Change::Delete(n) => n != name,
        },
    ensures
        held(changed(files, c), name) == held(files, name),
{
}

/// What an earlier root holds under a name hides what later ones hold.
pub proof fn earlier_root_wins(before: Seq<Option<Text>>, text: Text, after: Seq<Option<Text>>)
    requires
        forall|i: int| 0 <= i < before.len() ==> #[trigger] before[i] is None,
    ensures
        first_text(before + seq![Some(text)] + after) == Some(text),
    decreases before.len(),
{
    let all = before + seq![Some(text)] + after;
    if before.len() > 0 {
        assert(all[0] == before[0]);
        assert(all.skip(1) =~= before.skip(1) + seq![Some(text)] + after);
        assert forall|i: int| 0 <= i < before.skip(1).len() implies #[trigger] before.skip(
            1,
        )[i] is None by {
            assert(before.skip(1)[i] == before[i + 1]);
        }
        earlier_root_wins(before.skip(1), text, after);
    } else {
        assert(all[0] == Some(text));
    }
}

/// No name is listed twice.
pub proof fn listed_names_differ(files: Seq<(Text, Option<Text>)>)
    requires
        gathered(files) is Ok,
    ensures
        forall|i: int|
            0 <= i < (gathered(files)->Ok_0).len() ==> exists|k: int|
                0 <= k < files.len() && (#[trigger] files[k]).0 == (#[trigger] (
                gathered(files)->Ok_0)[i]).name,
        forall|i: int, j: int|
            0 <= i < j < (gathered(files)->Ok_0).len() ==> (#[trigger] (
            gathered(files)->Ok_0)[i]).name != (#[trigger] (gathered(files)->Ok_0)[j]).name,
    decreases files.len(),
{
    if files.len() > 0 {
        let init = files.drop_last();
        listed_names_differ(init);
        let v = gathered(init)->Ok_0;
        let w = gathered(files)->Ok_0;
        assert forall|i: int| 0 <= i < w.len() implies exists|k: int|
            0 <= k < files.len() && (#[trigger] files[k]).0 == (#[trigger] w[i]).name by {
            if i < v.len() {
                assert(w[i] == v[i]);
                let k = choose|k: int| 0 <= k < init.len() && (#[trigger] init[k]).0 == v[i].name;
                assert(files[k] == init[k]);
            } else {
                assert(files[files.len() - 1].0 == w[i].name);
            }
        }
        assert forall|i: int, j: int| 0 <= i < j < w.len() implies (#[trigger] w[i]).name != (
        #[trigger] w[j]).name by {
            assert(w[i] == v[i]);
            if j == v.len() {
                let k = choose|k: int| 0 <= k < init.len() && (#[trigger] init[k]).0 == v[i].name;
                assert(files[k] == init[k]);
                assert(!shadowed(files));
            }
        }
    }
}

/// No name that holds a path separator is accepted.
pub proof fn paths_are_refused(name: Text)
    requires
        occurs(name, chr('/')) || occurs(name, chr('\\')),
    ensures
        name_fault(name) is Some,
        read_result(name, seq![]) is Err,
        delete_result(name) is Err,
{
}

} // verus!
