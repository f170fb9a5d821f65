//! What enabling, disabling and masking come to, in terms of a unit's `[Install]`
//! section.

use vstd::prelude::*;

use crate::enable::masks::{file_in, mask_at, mask_link, Place, Spot};
use crate::enable::{
    also_named, candidates, disabled_after, file_named, install_in, is_link_dir, link_message,
    link_plan, plan_of, removal_messages, removals, removals_are_present, state_of, strays,
    targets, FoundFile, Link, LinkStep,
};
use crate::paths::below;
use crate::text::{chr, ends, find_first, find, lacks, occurs, texts, Text};
use crate::unit::config::{InstallConfig, InstallSettings};

verus! {

/// The lists of a section that was read are those that it holds.
pub proof fn section_holds_its_lists(c: InstallConfig)
    ensures
        c@.wanted_by == texts(c.wanted_by@),
        c@.required_by == texts(c.required_by@),
        c@.also == texts(c.also@),
        c@.alias == texts(c.alias@),
{
}

/// A name with a suffix that is known is a file's name; any other one gets
/// `.service`.
pub proof fn files_are_services_by_default(stem: Text)
    ensures
        file_named(stem + ".service"@) == stem + ".service"@,
        file_named(stem + ".timer"@) == stem + ".timer"@,
        file_named(stem + ".target"@) == stem + ".target"@,
        lacks(stem, '.') ==> file_named(stem) == stem + ".service"@,
{
    reveal_strlit(".service");
    reveal_strlit(".timer");
    reveal_strlit(".target");
    assert(".service"@ =~= seq!['.', 's', 'e', 'r', 'v', 'i', 'c', 'e']);
    assert(".timer"@ =~= seq!['.', 't', 'i', 'm', 'e', 'r']);
    assert(".target"@ =~= seq!['.', 't', 'a', 'r', 'g', 'e', 't']);
    assert((stem + ".service"@).skip(stem.len() as int) =~= ".service"@);
    if lacks(stem, '.') && ends(stem, ".service"@) {
        assert(stem.skip(stem.len() - 8)[0] == stem[stem.len() - 8]);
    }
    assert((stem + ".timer"@).skip(stem.len() as int) =~= ".timer"@);
    if lacks(stem, '.') && ends(stem, ".timer"@) {
        assert(stem.skip(stem.len() - 6)[0] == stem[stem.len() - 6]);
    }
    assert((stem + ".target"@).skip(stem.len() as int) =~= ".target"@);
    if lacks(stem, '.') && ends(stem, ".target"@) {
        assert(stem.skip(stem.len() - 7)[0] == stem[stem.len() - 7]);
    }
}

/// Enabling links a unit from each target of `WantedBy=`, in the directory of what
/// the target wants, and from each of `RequiredBy=`, in that of what it requires;
/// and for each name of `Alias=` there is a link of that name. All of them lead to
/// the unit's file.
#[verifier::spinoff_prover]
#[verifier::rlimit(60)]
pub proof fn enabling_makes_these_links(
    config_dir: Text,
    name: Text,
    path: Text,
    i: InstallSettings,
    k: int,
)
    ensures
        link_plan(config_dir, name, path, i).len() == i.wanted_by.len() + i.required_by.len()
            + i.alias.len(),
        0 <= k < i.wanted_by.len() ==> link_plan(config_dir, name, path, i)[k] == (Link {
            dir: below(config_dir, i.wanted_by[k] + ".wants"@),
            link: below(below(config_dir, i.wanted_by[k] + ".wants"@), name),
            target: path,
            alias: false,
        }),
        0 <= k < i.required_by.len() && !i.wanted_by.contains(i.required_by[k]) ==> link_plan(
            config_dir,
            name,
            path,
            i,
        )[i.wanted_by.len() + k] == (Link {
            dir: below(config_dir, i.required_by[k] + ".requires"@),
            link: below(below(config_dir, i.required_by[k] + ".requires"@), name),
            target: path,
            alias: false,
        }),
        0 <= k < i.alias.len() ==> link_plan(config_dir, name, path, i)[i.wanted_by.len()
            + i.required_by.len() + k] == (Link {
            dir: config_dir,
            link: below(config_dir, file_named(i.alias[k])),
            target: path,
            alias: true,
        }),
{
    directory_names();
    let t = targets(i);
    if 0 <= k < i.wanted_by.len() {
        assert(t[k] == i.wanted_by[k]);
        assert(i.wanted_by.contains(t[k]));
        assert(t[k] + "."@ + "wants"@ =~= t[k] + ".wants"@);
    }
    if 0 <= k < i.required_by.len() {
        let j = i.wanted_by.len() + k;
        assert(t[j] == i.required_by[k]);
        assert(t[j] + "."@ + "requires"@ =~= t[j] + ".requires"@);
    }
}

proof fn directory_names()
    ensures
        "."@ + "wants"@ == ".wants"@,
        "."@ + "requires"@ == ".requires"@,
{
    reveal_strlit(".");
    reveal_strlit("wants");
    reveal_strlit("requires");
    reveal_strlit(".wants");
    reveal_strlit(".requires");
    assert("."@ =~= seq!['.']);
    assert("wants"@ =~= seq!['w', 'a', 'n', 't', 's']);
    assert("requires"@ =~= seq!['r', 'e', 'q', 'u', 'i', 'r', 'e', 's']);
    assert(".wants"@ =~= seq!['.', 'w', 'a', 'n', 't', 's']);
    assert(".requires"@ =~= seq!['.', 'r', 'e', 'q', 'u', 'i', 'r', 'e', 's']);
    assert("."@ + "wants"@ =~= ".wants"@);
    assert("."@ + "requires"@ =~= ".requires"@);
}

/// A link that a section asks for makes a unit enabled, wherever among its targets
/// it stands.
#[verifier::spinoff_prover]
#[verifier::rlimit(60)]
pub proof fn any_link_enables(
    config_dir: Text,
    name: Text,
    text: Text,
    i: InstallSettings,
    links: Set<Text>,
    k: int,
)
    requires
        install_in(text, name) == Some(i),
    ensures
        0 <= k < i.wanted_by.len() && links.contains(
            below(below(config_dir, i.wanted_by[k] + ".wants"@), name),
        ) ==> state_of(config_dir, name, false, Some(Some(text)), links) == "enabled"@,
        0 <= k < i.required_by.len() && links.contains(
            below(below(config_dir, i.required_by[k] + ".requires"@), name),
        ) ==> state_of(config_dir, name, false, Some(Some(text)), links) == "enabled"@,
        0 <= k < i.alias.len() && links.contains(below(config_dir, file_named(i.alias[k])))
            ==> state_of(config_dir, name, false, Some(Some(text)), links) == "enabled"@,
{
    directory_names();
    let c = candidates(config_dir, name, i);
    let t = targets(i);
    let n = t.len() as int;
    if 0 <= k < i.wanted_by.len() {
        assert(t[k] == i.wanted_by[k]);
        assert((2 * k) / 2 == k && (2 * k) % 2 == 0);
        assert(t[k] + "."@ + "wants"@ =~= t[k] + ".wants"@);
        assert(c[2 * k] == below(below(config_dir, t[k] + ".wants"@), name));
    }
    if 0 <= k < i.required_by.len() {
        let j = i.wanted_by.len() + k;
        assert(t[j] == i.required_by[k]);
        assert((2 * j + 1) / 2 == j && (2 * j + 1) % 2 == 1);
        assert(t[j] + "."@ + "requires"@ =~= t[j] + ".requires"@);
        assert(c[2 * j + 1] == below(below(config_dir, t[j] + ".requires"@), name));
    }
    if 0 <= k < i.alias.len() {
        assert(c[2 * n + k] == below(config_dir, file_named(i.alias[k])));
    }
}

/// A unit has one of five states: it is masked, whatever else; without a file it is
/// not found; without anything to install, or without a readable file, it is
/// static; and otherwise it is disabled where none of its links is there.
pub proof fn states_are_told_by_their_texts(
    config_dir: Text,
    name: Text,
    masked: bool,
    file: Option<Option<Text>>,
    links: Set<Text>,
)
    ensures
        ({
            let s = state_of(config_dir, name, masked, file, links);
            &&& s == "masked"@ <==> masked
            &&& s == "not-found"@ <==> !masked && file is None
            &&& !masked && file is Some && file->0 is None ==> s == "static"@
            &&& !masked && file is Some && file->0 is Some ==> match install_in(file->0->0, name) {
                None => s == "static"@,
                Some(i) => {
                    &&& s == "static"@ <==> i.wanted_by.len() == 0 && i.required_by.len() == 0
                        && i.alias.len() == 0
                    &&& s == "disabled"@ <==> (i.wanted_by.len() > 0 || i.required_by.len() > 0
                        || i.alias.len() > 0) && forall|k: int|
                        0 <= k < candidates(config_dir, name, i).len() ==> !links.contains(
                            #[trigger] candidates(config_dir, name, i)[k],
                        )
                },
            }
            &&& s == "masked"@ || s == "not-found"@ || s == "static"@ || s == "enabled"@ || s
                == "disabled"@
        }),
{
    reveal_strlit("masked");
    reveal_strlit("not-found");
    reveal_strlit("static");
    reveal_strlit("enabled");
    reveal_strlit("disabled");
    assert("masked"@.len() == 6 && "masked"@[0] == 'm' && "masked"@[1] == 'a' && "masked"@[2] == 's' && "masked"@[3] == 'k');
    assert("not-found"@.len() == 9 && "not-found"@[0] == 'n' && "not-found"@[1] == 'o' && "not-found"@[2] == 't' && "not-found"@[3] == '-');
    assert("static"@.len() == 6 && "static"@[0] == 's' && "static"@[1] == 't' && "static"@[2] == 'a' && "static"@[3] == 't');
    assert("enabled"@.len() == 7 && "enabled"@[0] == 'e' && "enabled"@[1] == 'n' && "enabled"@[2] == 'a' && "enabled"@[3] == 'b');
    assert("disabled"@.len() == 8 && "disabled"@[0] == 'd' && "disabled"@[1] == 'i' && "disabled"@[2] == 's' && "disabled"@[3] == 'a');
}

/// The units of `Also=` are enabled and disabled too, under their files' names.
pub proof fn also_units_follow(config_dir: Text, name: Text, f: FoundFile, k: int)
    ensures
        forall|i: InstallSettings, j: int|
            0 <= j < i.also.len() ==> #[trigger] also_named(i)[j] == file_named(i.also[j]),
        plan_of(config_dir, name, None) == Err::<(Seq<Link>, Seq<Text>), Text>(
            "Failed to enable unit: Unit file "@ + name + " not found."@,
        ),
        f.text is Some ==> (plan_of(config_dir, name, Some(f)) is Ok <==> install_in(
            f.text->0@,
            name,
        ) is Some),
        f.text is None ==> plan_of(config_dir, name, Some(f)) is Err,
        plan_of(config_dir, name, Some(f)) is Ok ==> ({
            let i = install_in(f.text->0@, name)->0;
            let (links, also) = plan_of(config_dir, name, Some(f))->Ok_0;
            &&& links == link_plan(config_dir, name, f.path@, i)
            &&& also.len() == i.also.len()
            &&& 0 <= k < also.len() ==> also[k] == file_named(i.also[k])
        }),
{
}

/// What is reported of a link names it and where it leads; an alias is called one.
pub proof fn link_messages_name_the_link(dir: Text, link: Text, target: Text)
    ensures
        link_message(Link { dir, link, target, alias: true }) == "Created alias "@ + link + " -> "@
            + target,
        link_message(Link { dir, link, target, alias: false }) == "Created symlink "@ + link
            + " -> "@ + target,
{
}

/// Each link that was removed is reported; where nothing was to be done, that is.
pub proof fn removals_are_reported(name: Text, removed: Seq<Text>, also: Seq<Text>, k: int)
    ensures
        removed.len() == 0 && also.len() == 0 ==> removal_messages(name, removed, also) == seq![
            "Unit "@ + name + " was not enabled."@,
        ],
        removed.len() > 0 ==> removal_messages(name, removed, also).len() == removed.len(),
        0 <= k < removed.len() ==> removal_messages(name, removed, also)[k] == "Removed "@
            + removed[k],
        removed.len() == 0 && also.len() > 0 ==> removal_messages(name, removed, also).len() == 0,
{
}

/// Links to a unit are looked for in each directory of a target, of what it wants
/// and of what it requires, and in no other one.
pub proof fn strays_are_looked_for_everywhere(
    config_dir: Text,
    name: Text,
    entries: Seq<Text>,
    target: Text,
    e: Text,
)
    ensures
        is_link_dir(target + ".wants"@) <==> !lacks(target, '.'),
        !lacks(target, '.') ==> is_link_dir(target + ".requires"@),
        strays(config_dir, name, entries.push(e)) == if is_link_dir(e) {
            strays(config_dir, name, entries).push(below(below(config_dir, e), name))
        } else {
            strays(config_dir, name, entries)
        },
        strays(config_dir, name, seq![]).len() == 0,
{
    reveal_strlit(".wants");
    reveal_strlit(".requires");
    assert(".wants"@ =~= seq!['.', 'w', 'a', 'n', 't', 's']);
    assert(".requires"@ =~= seq!['.', 'r', 'e', 'q', 'u', 'i', 'r', 'e', 's']);
    let a = target + ".wants"@;
    let b = target + ".requires"@;
    assert(a.skip(target.len() as int) =~= ".wants"@);
    assert(b.skip(target.len() as int) =~= ".requires"@);
    assert(a.take(target.len() as int) =~= target);
    assert(b.take(target.len() as int) =~= target);
    if ends(a, ".requires"@) {
        let x = a.skip(a.len() - 9);
        assert(x[5] == ".requires"@[5]);
        assert(x[5] == a[a.len() - 4]);
        assert(a[a.len() - 4] == ".wants"@[2]);
    }
    find_first(target, chr('.'));
    let k = find(target, chr('.')) as int;
    if occurs(target, chr('.')) {
        assert(target[k] == '.');
    } else {
        assert forall|i: int| 0 <= i < target.len() implies #[trigger] target[i] != '.' by {
            assert(!chr('.')(target[i]));
        }
    }
    assert(entries.push(e).drop_last() =~= entries);
}

/// The first directory that has anything under a unit's name decides whether the
/// unit is masked; the first that has a file has the unit's file.
pub proof fn first_directories_decide(v: Seq<Spot>, k: int)
    requires
        0 <= k < v.len(),
    ensures
        (forall|i: int| 0 <= i < k ==> (#[trigger] v[i]) == Spot::Vacant) && v[k] != Spot::Vacant
            ==> (mask_at(v) == if v[k] == Spot::Mask {
            Some(k)
        } else {
            None
        }),
        (forall|i: int| 0 <= i < k ==> !((#[trigger] v[i]) is File)) && v[k] is File ==> file_in(v)
            == Some((v[k]->File_0, v[k]->File_1)),
        (forall|i: int| 0 <= i < v.len() ==> (#[trigger] v[i]) == Spot::Vacant) ==> mask_at(v)
            is None,
        (forall|i: int| 0 <= i < v.len() ==> !((#[trigger] v[i]) is File)) ==> file_in(v) is None,
    decreases v.len(),
{
    let w = v.skip(1);
    if v.len() > 1 {
        let j = if k > 0 {
            k - 1
        } else {
            0
        };
        first_directories_decide(w, j);
    } else {
        assert(w =~= seq![]);
        assert(file_in(w) is None);
    }
    assert forall|i: int| 0 <= i < w.len() implies #[trigger] w[i] == v[i + 1] by {}
    if k > 0 {
        assert(w[k - 1] == v[k]);
    }
    assert(!(v[0] is File) ==> file_in(v) == file_in(w));
}

/// Masking replaces another mask and nothing else: a file stays.
pub proof fn masking_replaces_no_file(unit_path: Seq<Text>, name: Text, v: Seq<Spot>)
    requires
        unit_path.len() > 0,
        v.len() == unit_path.len(),
    ensures
        mask_link(unit_path, name, v) == Ok::<Text, Text>(below(unit_path[0], name)) <==> v[0]
            == Spot::Vacant || v[0] == Spot::Mask,
        v[0] is File || v[0] is Other ==> mask_link(unit_path, name, v) is Err,
{
}

/// Links and places are seen as they are.
pub proof fn links_are_what_they_hold(l: LinkStep, f: FoundFile)
    ensures
        l@.dir == l.dir@ && l@.link == l.link@ && l@.target == l.target@ && l@.alias == l.alias,
        Place::Vacant@ is Vacant,
        Place::Mask@ is Mask,
        Place::Other@ is Other,
        Place::File(f)@ is File,
        Place::File(f)@->File_0 == f.path@,
        f.text is Some ==> Place::File(f)@->File_1 == Some(f.text->0@),
        f.text is None ==> Place::File(f)@->File_1 is None,
{
}

/// The units that are disabled with one are those of its `Also=`; the links that are
/// removed are those that stand for it and are there. Without a section there are none.
pub proof fn disabling_undoes_the_section(
    config_dir: Text,
    name: Text,
    i: InstallSettings,
    present: Set<Text>,
    x: Text,
)
    ensures
        disabled_after(None).len() == 0,
        disabled_after(Some(i)) == also_named(i),
        removals(config_dir, name, None, present).len() == 0,
        removals(config_dir, name, Some(i), present).contains(x) <==> candidates(
            config_dir,
            name,
            i,
        ).contains(x) && present.contains(x),
{
    removals_are_present(candidates(config_dir, name, i), present, x);
}

/// What stands in the way of a link is said.
pub proof fn refused_links_are_named(
    config_dir: Text,
    name: Text,
    f: FoundFile,
    unit_path: Seq<Text>,
    v: Seq<Spot>,
)
    ensures
        f.text is None ==> plan_of(config_dir, name, Some(f)) == Err::<
            (Seq<Link>, Seq<Text>),
            Text,
        >("Unit "@ + name + " has no installation config (no [Install] section)."@),
        plan_of(config_dir, name, Some(f)) is Err ==> plan_of(config_dir, name, Some(f)) == Err::<
            (Seq<Link>, Seq<Text>),
            Text,
        >("Unit "@ + name + " has no installation config (no [Install] section)."@),
        unit_path.len() == 0 ==> mask_link(unit_path, name, v) == Err::<Text, Text>(
            "no unit directory"@,
        ),
        unit_path.len() > 0 && v[0] != Spot::Vacant && v[0] != Spot::Mask ==> mask_link(
            unit_path,
            name,
            v,
        ) == Err::<Text, Text>("File "@ + below(unit_path[0], name) + " already exists."@),
{
}

} // verus!
