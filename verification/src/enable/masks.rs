//! Masking units: a link to `/dev/null` in the first unit directory hides the
//! unit's file, and keeps the unit from being started.

use vstd::prelude::*;

use crate::enable::{enabled_state, file_named, state_of, FoundFile};
use crate::ipc::run::SequenceOp;
use crate::ipc::work::{duties, stepped, Event, Next};
use crate::manager::ops::Lifecycle;
use crate::manager::state::Unit;
use crate::order::views;
use crate::paths::{below, path_below};
use crate::text::{cat3, opt_text, owned, texts, Text};

verus! {

/// What a mask points at.
pub const NULL: &'static str = "/dev/null";

/// What one of the unit directories has under a unit's name.
#[derive(Debug, Clone)]
pub enum Place {
    Vacant,
    /// A link to [`NULL`].
    Mask,
    File(FoundFile),
    /// Something that is neither.
    Other,
}

/// What a unit directory has under a unit's name, as specifications see it: of a
/// file, its path and its text, where that can be read.
pub ghost enum Spot {
    Vacant,
    Mask,
    File(Text, Option<Text>),
    Other,
}

impl View for Place {
    type V = Spot;

    open spec fn view(&self) -> Spot {
        match self {
            Place::Vacant => Spot::Vacant,
            Place::Mask => Spot::Mask,
            Place::File(f) => Spot::File(f.path@, opt_text(f.text)),
            Place::Other => Spot::Other,
        }
    }
}

/// The first directory that has something under the name; the number of
/// directories if none has.
pub open spec fn first_taken(v: Seq<Spot>) -> nat
    decreases v.len(),
{
    if v.len() == 0 || v[0] != Spot::Vacant {
        0
    } else {
        1 + first_taken(v.skip(1))
    }
}

/// The directory whose entry masks the unit, if one does: it is the first that
/// has something under the unit's name.
pub open spec fn mask_at(v: Seq<Spot>) -> Option<int> {
    let k = first_taken(v) as int;
    if 0 <= k < v.len() && v[k] == Spot::Mask {
        Some(k)
    } else {
        None
    }
}

/// The unit's file: that of the first directory that has one.
pub open spec fn file_in(v: Seq<Spot>) -> Option<(Text, Option<Text>)>
    decreases v.len(),
{
    if v.len() == 0 {
        None
    } else {
        match v[0] {
            Spot::File(p, t) => Some((p, t)),
            _ => file_in(v.skip(1)),
        }
    }
}

/// What a unit's file holds.
pub open spec fn text_in(v: Seq<Spot>) -> Option<Option<Text>> {
    match file_in(v) {
        Some((_, t)) => Some(t),
        None => None,
    }
}

/// The enable state of a unit, from what the unit directories have under its
/// name, and the links that there are.
pub open spec fn state_in(
    config_dir: Text,
    name: Text,
    v: Seq<Spot>,
    links: Set<Text>,
) -> Text {
    state_of(config_dir, name, mask_at(v) is Some, text_in(v), links)
}

/// Nothing before `first_taken` is taken.
proof fn first_taken_first(v: Seq<Spot>, k: int)
    requires
        0 <= k <= v.len(),
        forall|i: int| 0 <= i < k ==> (#[trigger] v[i]) == Spot::Vacant,
        k < v.len() ==> v[k] != Spot::Vacant,
    ensures
        first_taken(v) == k,
    decreases k,
{
    if k > 0 {
        assert(v[0] == Spot::Vacant);
        let t = v.skip(1);
        assert forall|i: int| 0 <= i < k - 1 implies (#[trigger] t[i]) == Spot::Vacant by {
            assert(t[i] == v[i + 1]);
        }
        first_taken_first(t, k - 1);
    }
}

/// The directory whose entry masks the unit, if one does.
fn mask_place(places: &Vec<Place>) -> (r: Option<usize>)
    ensures
        match r {
            Some(k) => k < places.len() && mask_at(views(places@)) == Some(k as int),
            None => mask_at(views(places@)) is None,
        },
{
    let ghost v = views(places@);
    let mut i: usize = 0;
    while i < places.len()
        invariant
            i <= places.len(),
            v == views(places@),
            forall|j: int| 0 <= j < i ==> (#[trigger] v[j]) == Spot::Vacant,
        decreases places.len() - i,
    {
        assert(v[i as int] == places@[i as int]@);
        match &places[i] {
            Place::Vacant => {},
            Place::Mask => {
                proof {
                    first_taken_first(v, i as int);
                }
                return Some(i);
            },
            _ => {
                proof {
                    first_taken_first(v, i as int);
                }
                return None;
            },
        }
        i = i + 1;
    }
    proof {
        first_taken_first(v, i as int);
    }
    None
}

/// Is the unit masked?
pub fn is_masked(places: &Vec<Place>) -> (r: bool)
    ensures
        r == mask_at(views(places@)) is Some,
{
    mask_place(places).is_some()
}

/// A file that was found, as specifications see it.
pub open spec fn found_view(f: Option<FoundFile>) -> Option<(Text, Option<Text>)> {
    match f {
        Some(x) => Some((x.path@, opt_text(x.text))),
        None => None,
    }
}

/// The unit's file: that of the first directory that has one.
pub fn find_file(places: &Vec<Place>) -> (r: Option<FoundFile>)
    ensures
        found_view(r) == file_in(views(places@)),
{
    let ghost v = views(places@);
    let mut i: usize = 0;
    assert(v.skip(0) =~= v);
    while i < places.len()
        invariant
            i <= places.len(),
            v == views(places@),
            file_in(v.skip(i as int)) == file_in(v),
        decreases places.len() - i,
    {
        let ghost rest = v.skip(i as int);
        proof {
            assert(rest[0] == places@[i as int]@);
            assert(rest.skip(1) =~= v.skip(i + 1));
        }
        match &places[i] {
            Place::File(f) => {
                let text = match &f.text {
                    Some(t) => Some(t.clone()),
                    None => None,
                };
                return Some(FoundFile { path: f.path.clone(), text });
            },
            _ => {},
        }
        i = i + 1;
    }
    assert(v.skip(i as int) =~= seq![]);
    None
}

/// The enable state of a unit. `live` holds the links that there are.
pub fn state(config_dir: &str, name: &str, places: &Vec<Place>, live: &Vec<String>) -> (r:
    &'static str)
    ensures
        r@ == state_in(
            config_dir@,
            file_named(name@),
            views(places@),
            texts(live@).to_set(),
        ),
{
    let file = find_file(places);
    enabled_state(config_dir, name, is_masked(places), &file, live)
}

/// What masking a unit comes to: the link to make in the first directory, or why
/// there is none to be made. Nothing but another mask is replaced.
pub open spec fn mask_link(unit_path: Seq<Text>, name: Text, v: Seq<Spot>) -> Result<Text, Text> {
    if unit_path.len() == 0 {
        Err("no unit directory"@)
    } else if v[0] == Spot::Vacant || v[0] == Spot::Mask {
        Ok(below(unit_path[0], name))
    } else {
        Err("File "@ + below(unit_path[0], name) + " already exists."@)
    }
}

/// Mask a unit: the link to [`NULL`] to make, in the place of one that may be
/// there. `places` has what each of the unit directories has under the name.
pub fn mask(unit_path: &Vec<String>, name: &str, places: &Vec<Place>) -> (r: Result<
    String,
    String,
>)
    requires
        places.len() == unit_path.len(),
    ensures
        match r {
            Ok(l) => mask_link(texts(unit_path@), name@, views(places@)) == Ok::<Text, Text>(l@),
            Err(e) => mask_link(texts(unit_path@), name@, views(places@)) == Err::<Text, Text>(e@),
        },
{
    if unit_path.len() == 0 {
        return Err(owned("no unit directory"));
    }
    assert(views(places@)[0] == places@[0]@);
    let link = path_below(unit_path[0].as_str(), name);
    match &places[0] {
        Place::Vacant | Place::Mask => Ok(link),
        _ => Err(cat3("File ", link.as_str(), " already exists.")),
    }
}

/// Unmask a unit: the link to remove, if the unit is masked.
pub fn unmask(unit_path: &Vec<String>, name: &str, places: &Vec<Place>) -> (r: Option<String>)
    requires
        places.len() == unit_path.len(),
    ensures
        opt_text(r) == (match mask_at(views(places@)) {
            Some(k) => Some(below(texts(unit_path@)[k], name@)),
            None => None,
        }),
{
    match mask_place(places) {
        Some(k) => Some(path_below(unit_path[k].as_str(), name)),
        None => None,
    }
}

// ---- laws -----------------------------------------------------------------------

/// The unit directories after the unit was masked.
pub open spec fn masked(v: Seq<Spot>) -> Seq<Spot> {
    v.update(0, Spot::Mask)
}

/// The unit directories after the unit was unmasked.
pub open spec fn unmasked(v: Seq<Spot>) -> Seq<Spot> {
    match mask_at(v) {
        Some(k) => v.update(k, Spot::Vacant),
        None => v,
    }
}

/// A unit that was masked is masked, whatever its state was, and its file is
/// still there.
pub proof fn masking_masks(
    unit_path: Seq<Text>,
    config_dir: Text,
    name: Text,
    v: Seq<Spot>,
    links: Set<Text>,
)
    requires
        v.len() == unit_path.len(),
        mask_link(unit_path, name, v) is Ok,
    ensures
        mask_at(masked(v)) == Some(0int),
        state_in(config_dir, name, masked(v), links) == "masked"@,
        file_in(masked(v)) == file_in(v),
{
    assert(masked(v).skip(1) =~= v.skip(1));
}

/// Unmasking undoes masking: the unit directories are as they were before, and
/// so are the unit's file and its enable state.
pub proof fn unmasking_undoes_masking(
    unit_path: Seq<Text>,
    config_dir: Text,
    name: Text,
    v: Seq<Spot>,
    links: Set<Text>,
)
    requires
        v.len() == unit_path.len(),
        mask_at(v) is None,
        mask_link(unit_path, name, v) is Ok,
    ensures
        unmasked(masked(v)) == v,
        mask_at(unmasked(masked(v))) is None,
        file_in(unmasked(masked(v))) == file_in(v),
        state_in(config_dir, name, unmasked(masked(v)), links) == state_in(
            config_dir,
            name,
            v,
            links,
        ),
{
    masking_masks(unit_path, config_dir, name, v, links);
    assert(v[0] == Spot::Vacant);
    assert(unmasked(masked(v)) =~= v);
}

/// A unit is not started once it was masked, and it is started again once it was
/// unmasked.
pub proof fn only_a_masked_unit_is_refused(
    unit_path: Seq<Text>,
    name: Text,
    v: Seq<Spot>,
    units: Map<Text, Unit>,
)
    requires
        v.len() == unit_path.len(),
        mask_at(v) is None,
        mask_link(unit_path, name, v) is Ok,
    ensures
        stepped(
            duties(SequenceOp::Start, seq![name]),
            0,
            Event::Masked(mask_at(masked(v)) is Some),
            units,
        ).1 == Next::Finished(Err::<(), Text>("Unit "@ + name + " is masked."@)),
        stepped(
            duties(SequenceOp::Start, seq![name]),
            0,
            Event::Masked(mask_at(unmasked(masked(v))) is Some),
            units,
        ).1 == Next::Do(Lifecycle::Start, name),
{
    masking_masks(unit_path, seq![], name, v, Set::empty());
    unmasking_undoes_masking(unit_path, seq![], name, v, Set::empty());
}

} // verus!
