//! Enabling and disabling units: which links stand for a unit that is enabled.
//!
//! A unit is enabled by its `[Install]` section: `WantedBy=` and `RequiredBy=`
//! give links in the `.wants` and `.requires` directories of the targets,
//! `Alias=` links in the configuration directory, and the units of `Also=` are
//! enabled too. Masking is in `masks`.

use vstd::prelude::*;

pub mod laws;
pub mod masks;

use crate::paths::{below, path_below};
use crate::repo::domain::document_of;
use crate::text::{
    cat2, cat3, chr, contains_char, ends, ends_with, occurs, owned, strip_suffix, texts, Text,
};
use crate::unit::config::{install_section_of, read_install_section, InstallConfig, InstallSettings};
use crate::unit::parse::parse;

verus! {

// ---- names ----------------------------------------------------------------------

/// A unit file's name: `.service` is added where no suffix is known.
pub open spec fn file_named(name: Text) -> Text {
    if ends(name, ".service"@) || ends(name, ".timer"@) || ends(name, ".target"@) {
        name
    } else {
        name + ".service"@
    }
}

/// A unit file's name: `.service` is added where no suffix is known.
pub fn normalize_file_name(name: &str) -> (r: String)
    ensures
        r@ == file_named(name@),
{
    if ends_with(name, ".service") || ends_with(name, ".timer") || ends_with(name, ".target") {
        owned(name)
    } else {
        cat2(name, ".service")
    }
}

// ---- the section ----------------------------------------------------------------

/// The `[Install]` section of a unit file's text; nothing where the text is no
/// unit file.
pub open spec fn install_in(text: Text, unit_name: Text) -> Option<InstallSettings> {
    match document_of(text) {
        Ok(d) => Some(install_section_of(d, unit_name)),
        Err(_) => None,
    }
}

/// The `[Install]` section of a unit file's text.
pub fn install_section(text: &str, unit_name: &str) -> (r: Option<InstallConfig>)
    ensures
        match r {
            Some(i) => install_in(text@, unit_name@) == Some(i@),
            None => install_in(text@, unit_name@) is None,
        },
{
    match parse(text) {
        Ok(raw) => Some(read_install_section(&raw, unit_name)),
        Err(_) => None,
    }
}

/// The section of a unit file that was looked for: nothing where there is no
/// file, or none that can be read.
pub open spec fn install_found(file: Option<Text>, name: Text) -> Option<InstallSettings> {
    match file {
        Some(t) => install_in(t, name),
        None => None,
    }
}

/// The targets that a unit is linked from: those of `WantedBy=`, then those of
/// `RequiredBy=`.
pub open spec fn targets(i: InstallSettings) -> Seq<Text> {
    i.wanted_by + i.required_by
}

fn targets_of(i: &InstallConfig) -> (r: Vec<String>)
    ensures
        texts(r@) == targets(i@),
{
    let mut out: Vec<String> = Vec::new();
    push_all(&mut out, &i.wanted_by);
    push_all(&mut out, &i.required_by);
    assert(texts(out@) =~= targets(i@));
    out
}

fn push_all(out: &mut Vec<String>, v: &Vec<String>)
    ensures
        texts(final(out)@) == texts(old(out)@) + texts(v@),
{
    let ghost was = texts(out@);
    let mut k: usize = 0;
    assert(texts(out@) =~= was + texts(v@).take(0));
    while k < v.len()
        invariant
            k <= v.len(),
            texts(out@) == was + texts(v@).take(k as int),
        decreases v.len() - k,
    {
        let ghost before = texts(out@);
        out.push(v[k].clone());
        assert(texts(out@) =~= before.push(v@[k as int]@));
        assert(texts(v@).take(k + 1) =~= texts(v@).take(k as int).push(v@[k as int]@));
        k = k + 1;
        assert(texts(out@) =~= was + texts(v@).take(k as int));
    }
    assert(texts(v@).take(v.len() as int) =~= texts(v@));
}

// ---- links ----------------------------------------------------------------------

/// The link to a unit in a target's directory.
pub open spec fn target_link(config_dir: Text, target: Text, suffix: Text, name: Text) -> Text {
    below(below(config_dir, target + "."@ + suffix), name)
}

/// The link of an alias.
pub open spec fn alias_link(config_dir: Text, alias: Text) -> Text {
    below(config_dir, file_named(alias))
}

/// All links that stand for the unit being enabled: for each target one among
/// those that it wants and one among those that it requires, then one for each
/// alias.
pub open spec fn candidates(config_dir: Text, name: Text, i: InstallSettings) -> Seq<Text> {
    let t = targets(i);
    let n = t.len();
    Seq::new(
        2 * n + i.alias.len(),
        |k: int|
            if k < 2 * n {
                target_link(
                    config_dir,
                    t[k / 2],
                    if k % 2 == 0 {
                        "wants"@
                    } else {
                        "requires"@
                    },
                    name,
                )
            } else {
                alias_link(config_dir, i.alias[k - 2 * n])
            },
    )
}

fn link_in(config_dir: &str, target: &str, suffix: &str, name: &str) -> (r: String)
    ensures
        r@ == target_link(config_dir@, target@, suffix@, name@),
{
    let dir = path_below(config_dir, cat3(target, ".", suffix).as_str());
    path_below(dir.as_str(), name)
}

/// All links that stand for the unit being enabled.
pub fn install_links(config_dir: &str, name: &str, install: &InstallConfig) -> (r: Vec<String>)
    ensures
        texts(r@) == candidates(config_dir@, name@, install@),
{
    let t = targets_of(install);
    let ghost all = candidates(config_dir@, name@, install@);
    let mut out: Vec<String> = Vec::new();
    let mut i: usize = 0;
    while i < t.len()
        invariant
            i <= t.len(),
            texts(t@) == targets(install@),
            all == candidates(config_dir@, name@, install@),
            out.len() == 2 * i,
            forall|k: int| 0 <= k < 2 * i ==> (#[trigger] out@[k])@ == all[k],
        decreases t.len() - i,
    {
        let target = t[i].as_str();
        assert(texts(t@)[i as int] == target@);
        assert((2 * i as int) / 2 == i && (2 * i as int) % 2 == 0);
        assert((2 * i as int + 1) / 2 == i && (2 * i as int + 1) % 2 == 1);
        out.push(link_in(config_dir, target, "wants", name));
        out.push(link_in(config_dir, target, "requires", name));
        i = i + 1;
    }
    let ghost n = t.len() as int;
    let mut k: usize = 0;
    while k < install.alias.len()
        invariant
            k <= install.alias.len(),
            n == t.len(),
            texts(t@) == targets(install@),
            all == candidates(config_dir@, name@, install@),
            out.len() == 2 * n + k,
            forall|j: int| 0 <= j < 2 * n + k ==> (#[trigger] out@[j])@ == all[j],
        decreases install.alias.len() - k,
    {
        assert(texts(install.alias@)[k as int] == install.alias@[k as int]@);
        out.push(
            path_below(config_dir, normalize_file_name(install.alias[k].as_str()).as_str()),
        );
        k = k + 1;
    }
    assert(texts(out@) =~= all);
    out
}

// ---- the state ------------------------------------------------------------------

/// Can a unit with this section be enabled?
pub open spec fn installable(i: InstallSettings) -> bool {
    i.wanted_by.len() > 0 || i.required_by.len() > 0 || i.alias.len() > 0
}

/// Is one of the links there?
pub open spec fn linked(links: Set<Text>, v: Seq<Text>) -> bool {
    exists|k: int| 0 <= k < v.len() && links.contains(#[trigger] v[k])
}

/// The enable state of a unit, from whether it is masked, what its file holds
/// (where there is a file, and it can be read), and the links that there are.
pub open spec fn state_of(
    config_dir: Text,
    name: Text,
    masked: bool,
    file: Option<Option<Text>>,
    links: Set<Text>,
) -> Text {
    if masked {
        "masked"@
    } else {
        match file {
            None => "not-found"@,
            Some(text) => match install_found(text, name) {
                None => "static"@,
                Some(i) => if !installable(i) {
                    "static"@
                } else if linked(links, candidates(config_dir, name, i)) {
                    "enabled"@
                } else {
                    "disabled"@
                },
            },
        }
    }
}

/// A unit file that was looked for.
#[derive(Debug, Clone)]
pub struct FoundFile {
    /// The absolute path.
    pub path: String,
    /// The text; nothing where it could not be read.
    pub text: Option<String>,
}

/// What the file holds, as specifications see it.
pub open spec fn found_text(f: Option<FoundFile>) -> Option<Option<Text>> {
    match f {
        Some(x) => Some(crate::text::opt_text(x.text)),
        None => None,
    }
}

fn section_of(file: &Option<FoundFile>, name: &str) -> (r: Option<InstallConfig>)
    ensures
        match r {
            Some(i) => *file is Some && install_found(
                crate::text::opt_text((*file)->0.text),
                name@,
            ) == Some(i@),
            None => *file is None || install_found(
                crate::text::opt_text((*file)->0.text),
                name@,
            ) is None,
        },
{
    match file {
        None => None,
        Some(f) => match &f.text {
            None => None,
            Some(t) => install_section(t.as_str(), name),
        },
    }
}

fn is_linked(links: &Vec<String>, live: &Vec<String>) -> (r: bool)
    ensures
        r == linked(texts(live@).to_set(), texts(links@)),
{
    let ghost all = texts(links@);
    let mut i: usize = 0;
    while i < links.len()
        invariant
            i <= links.len(),
            all == texts(links@),
            forall|k: int| 0 <= k < i ==> !texts(live@).contains(#[trigger] all[k]),
        decreases links.len() - i,
    {
        assert(all[i as int] == links@[i as int]@);
        if crate::manager::ops::is_listed(live, links[i].as_str()) {
            assert(texts(live@).to_set().contains(all[i as int]));
            return true;
        }
        i = i + 1;
    }
    proof {
        if linked(texts(live@).to_set(), all) {
            let k = choose|k: int|
                0 <= k < all.len() && texts(live@).to_set().contains(#[trigger] all[k]);
            assert(texts(live@).contains(all[k]));
        }
    }
    false
}

/// The enable state of a unit. `live` holds the links that there are.
pub fn enabled_state(
    config_dir: &str,
    name: &str,
    masked: bool,
    file: &Option<FoundFile>,
    live: &Vec<String>,
) -> (r: &'static str)
    ensures
        r@ == state_of(
            config_dir@,
            file_named(name@),
            masked,
            found_text(*file),
            texts(live@).to_set(),
        ),
{
    let full = normalize_file_name(name);
    if masked {
        return "masked";
    }
    if file.is_none() {
        return "not-found";
    }
    let install = match section_of(file, full.as_str()) {
        Some(i) => i,
        None => {
            return "static";
        },
    };
    if install.wanted_by.len() == 0 && install.required_by.len() == 0 && install.alias.len() == 0 {
        return "static";
    }
    let links = install_links(config_dir, full.as_str(), &install);
    if is_linked(&links, live) {
        "enabled"
    } else {
        "disabled"
    }
}

// ---- enabling -------------------------------------------------------------------

/// A link to make.
#[derive(Debug, Clone)]
pub struct LinkStep {
    /// The directory that has to be there.
    pub dir: String,
    pub link: String,
    /// What the link points at.
    pub target: String,
    pub alias: bool,
}

/// A link to make, as specifications see it.
#[verifier::ext_equal]
pub ghost struct Link {
    pub dir: Text,
    pub link: Text,
    pub target: Text,
    pub alias: bool,
}

impl View for LinkStep {
    type V = Link;

    open spec fn view(&self) -> Link {
        Link { dir: self.dir@, link: self.link@, target: self.target@, alias: self.alias }
    }
}

/// What is reported of a link that was made.
pub open spec fn link_message(l: Link) -> Text {
    if l.alias {
        "Created alias "@ + l.link + " -> "@ + l.target
    } else {
        "Created symlink "@ + l.link + " -> "@ + l.target
    }
}

impl LinkStep {
    /// What is reported of the link when it was made.
    pub fn message(&self) -> (r: String)
        ensures
            r@ == link_message(self@),
    {
        let start = if self.alias {
            "Created alias "
        } else {
            "Created symlink "
        };
        cat2(cat3(start, self.link.as_str(), " -> ").as_str(), self.target.as_str())
    }
}

/// The directory of a target that a unit is linked in: a target that the
/// section names under both keys wants the unit.
pub open spec fn target_dir(config_dir: Text, i: InstallSettings, target: Text) -> Text {
    below(
        config_dir,
        target + "."@ + (if i.wanted_by.contains(target) {
            "wants"@
        } else {
            "requires"@
        }),
    )
}

/// The links that enabling a unit makes, in order.
pub open spec fn link_plan(
    config_dir: Text,
    name: Text,
    path: Text,
    i: InstallSettings,
) -> Seq<Link> {
    let t = targets(i);
    Seq::new(
        t.len() + i.alias.len(),
        |k: int|
            if k < t.len() {
                let dir = target_dir(config_dir, i, t[k]);
                Link { dir, link: below(dir, name), target: path, alias: false }
            } else {
                Link {
                    dir: config_dir,
                    link: alias_link(config_dir, i.alias[k - t.len()]),
                    target: path,
                    alias: true,
                }
            },
    )
}

/// What enabling a unit takes: the links to make, and the units to enable
/// after it.
pub struct EnablePlan {
    pub links: Vec<LinkStep>,
    pub also: Vec<String>,
}

/// The names of the unit files of `Also=`.
pub open spec fn also_named(i: InstallSettings) -> Seq<Text> {
    Seq::new(i.also.len(), |k: int| file_named(i.also[k]))
}

fn also_names(i: &InstallConfig) -> (r: Vec<String>)
    ensures
        texts(r@) == also_named(i@),
{
    let mut out: Vec<String> = Vec::new();
    let mut k: usize = 0;
    while k < i.also.len()
        invariant
            k <= i.also.len(),
            out.len() == k,
            forall|j: int| 0 <= j < k ==> (#[trigger] out@[j])@ == file_named(i.also@[j]@),
        decreases i.also.len() - k,
    {
        out.push(normalize_file_name(i.also[k].as_str()));
        k = k + 1;
    }
    assert(texts(out@) =~= also_named(i@));
    out
}

/// What enabling a unit takes, from the file that was found for it; or why it
/// cannot be enabled.
pub open spec fn plan_of(
    config_dir: Text,
    name: Text,
    file: Option<FoundFile>,
) -> Result<(Seq<Link>, Seq<Text>), Text> {
    match file {
        None => Err("Failed to enable unit: Unit file "@ + name + " not found."@),
        Some(f) => match install_found(crate::text::opt_text(f.text), name) {
            None => Err(
                "Unit "@ + name + " has no installation config (no [Install] section)."@,
            ),
            Some(i) => Ok((link_plan(config_dir, name, f.path@, i), also_named(i))),
        },
    }
}

/// What enabling a unit takes, from the file that was found for it.
pub fn enable(config_dir: &str, name: &str, file: &Option<FoundFile>) -> (r: Result<
    EnablePlan,
    String,
>)
    ensures
        match r {
            Ok(p) => plan_of(config_dir@, file_named(name@), *file) == Ok::<
                (Seq<Link>, Seq<Text>),
                Text,
            >((crate::order::views(p.links@), texts(p.also@))),
            Err(e) => plan_of(config_dir@, file_named(name@), *file) == Err::<
                (Seq<Link>, Seq<Text>),
                Text,
            >(e@),
        },
{
    let full = normalize_file_name(name);
    let path = match file {
        None => {
            return Err(cat3("Failed to enable unit: Unit file ", full.as_str(), " not found."));
        },
        Some(f) => f.path.as_str(),
    };
    let install = match section_of(file, full.as_str()) {
        Some(i) => i,
        None => {
            return Err(
                cat3("Unit ", full.as_str(), " has no installation config (no [Install] section)."),
            );
        },
    };
    let t = targets_of(&install);
    let ghost plan = link_plan(config_dir@, full@, path@, install@);
    let mut links: Vec<LinkStep> = Vec::new();
    let mut i: usize = 0;
    while i < t.len()
        invariant
            i <= t.len(),
            texts(t@) == targets(install@),
            plan == link_plan(config_dir@, full@, path@, install@),
            links.len() == i,
            forall|k: int| 0 <= k < i ==> (#[trigger] links@[k])@ == plan[k],
        decreases t.len() - i,
    {
        let target = t[i].as_str();
        assert(texts(t@)[i as int] == target@);
        let suffix = if crate::manager::ops::is_listed(&install.wanted_by, target) {
            "wants"
        } else {
            "requires"
        };
        let dir = path_below(config_dir, cat3(target, ".", suffix).as_str());
        let link = path_below(dir.as_str(), full.as_str());
        links.push(LinkStep { dir, link, target: owned(path), alias: false });
        i = i + 1;
    }
    let ghost n = t.len() as int;
    let mut k: usize = 0;
    while k < install.alias.len()
        invariant
            k <= install.alias.len(),
            n == t.len(),
            texts(t@) == targets(install@),
            plan == link_plan(config_dir@, full@, path@, install@),
            links.len() == n + k,
            forall|j: int| 0 <= j < n + k ==> (#[trigger] links@[j])@ == plan[j],
        decreases install.alias.len() - k,
    {
        assert(texts(install.alias@)[k as int] == install.alias@[k as int]@);
        let link = path_below(
            config_dir,
            normalize_file_name(install.alias[k].as_str()).as_str(),
        );
        links.push(LinkStep { dir: owned(config_dir), link, target: owned(path), alias: true });
        k = k + 1;
    }
    assert(crate::order::views(links@) =~= plan);
    Ok(EnablePlan { links, also: also_names(&install) })
}

// ---- disabling ------------------------------------------------------------------

/// The links among these that are there, each once and in order.
pub open spec fn present_among(v: Seq<Text>, present: Set<Text>) -> Seq<Text>
    decreases v.len(),
{
    if v.len() == 0 {
        seq![]
    } else {
        let found = present_among(v.drop_last(), present);
        if present.contains(v.last()) && !found.contains(v.last()) {
            found.push(v.last())
        } else {
            found
        }
    }
}

/// What disabling a unit takes: the links to remove, what is reported of it,
/// and the units to disable after it.
pub struct DisablePlan {
    pub remove: Vec<String>,
    pub messages: Vec<String>,
    pub also: Vec<String>,
}

/// The links that disabling a unit removes.
pub open spec fn removals(
    config_dir: Text,
    name: Text,
    install: Option<InstallSettings>,
    present: Set<Text>,
) -> Seq<Text> {
    match install {
        Some(i) => present_among(candidates(config_dir, name, i), present),
        None => seq![],
    }
}

/// The units that are disabled after it.
pub open spec fn disabled_after(install: Option<InstallSettings>) -> Seq<Text> {
    match install {
        Some(i) => also_named(i),
        None => seq![],
    }
}

/// What is reported of disabling a unit.
pub open spec fn removal_messages(name: Text, removed: Seq<Text>, also: Seq<Text>) -> Seq<Text> {
    if removed.len() == 0 && also.len() == 0 {
        seq!["Unit "@ + name + " was not enabled."@]
    } else {
        Seq::new(removed.len(), |k: int| "Removed "@ + removed[k])
    }
}

/// The section of the file that was found.
pub open spec fn section_found(file: Option<FoundFile>, name: Text) -> Option<InstallSettings> {
    match file {
        Some(f) => install_found(crate::text::opt_text(f.text), name),
        None => None,
    }
}

fn pick_present(v: &Vec<String>, present: &Vec<String>) -> (r: Vec<String>)
    ensures
        texts(r@) == present_among(texts(v@), texts(present@).to_set()),
{
    let mut out: Vec<String> = Vec::new();
    let mut i: usize = 0;
    let ghost all = texts(v@);
    let ghost there = texts(present@).to_set();
    proof {
        assert(all.take(0) =~= seq![]);
        assert(texts(out@) =~= seq![]);
    }
    while i < v.len()
        invariant
            i <= v.len(),
            all == texts(v@),
            there == texts(present@).to_set(),
            texts(out@) == present_among(all.take(i as int), there),
        decreases v.len() - i,
    {
        let ghost upto = all.take(i + 1);
        let ghost was = texts(out@);
        let link = v[i].as_str();
        proof {
            assert(upto.drop_last() =~= all.take(i as int));
            assert(upto.last() == link@);
            assert(there.contains(link@) == texts(present@).contains(link@));
        }
        if crate::manager::ops::is_listed(present, link) && !crate::manager::ops::is_listed(
            &out,
            link,
        ) {
            out.push(owned(link));
            assert(texts(out@) =~= was.push(link@));
        }
        i = i + 1;
    }
    assert(all.take(v.len() as int) =~= all);
    out
}

/// What disabling a unit takes, from the file that was found for it. `present`
/// holds the links that there are.
pub fn disable(
    config_dir: &str,
    name: &str,
    file: &Option<FoundFile>,
    present: &Vec<String>,
) -> (r: DisablePlan)
    ensures
        ({
            let full = file_named(name@);
            let install = section_found(*file, full);
            let removed = removals(config_dir@, full, install, texts(present@).to_set());
            &&& texts(r.remove@) == removed
            &&& texts(r.also@) == disabled_after(install)
            &&& texts(r.messages@) == removal_messages(full, removed, disabled_after(install))
        }),
{
    let full = normalize_file_name(name);
    let (remove, also) = match section_of(file, full.as_str()) {
        Some(i) => {
            let links = install_links(config_dir, full.as_str(), &i);
            (pick_present(&links, present), also_names(&i))
        },
        None => {
            let a: Vec<String> = Vec::new();
            let b: Vec<String> = Vec::new();
            assert(texts(a@) =~= seq![]);
            assert(texts(b@) =~= seq![]);
            (a, b)
        },
    };
    let mut messages: Vec<String> = Vec::new();
    if remove.len() == 0 && also.len() == 0 {
        messages.push(cat3("Unit ", full.as_str(), " was not enabled."));
        assert(texts(messages@) =~= removal_messages(full@, texts(remove@), texts(also@)));
    } else {
        let mut k: usize = 0;
        while k < remove.len()
            invariant
                k <= remove.len(),
                messages.len() == k,
                forall|j: int|
                    0 <= j < k ==> (#[trigger] messages@[j])@ == "Removed "@ + remove@[j]@,
            decreases remove.len() - k,
        {
            messages.push(cat2("Removed ", remove[k].as_str()));
            k = k + 1;
        }
        assert(texts(messages@) =~= removal_messages(full@, texts(remove@), texts(also@)));
    }
    DisablePlan { remove, messages, also }
}

/// Is this the directory of a target that holds links? Its name is that of the
/// target and a suffix.
pub open spec fn is_link_dir(f: Text) -> bool {
    ||| ends(f, ".wants"@) && occurs(f.take(f.len() - 6), chr('.'))
    ||| ends(f, ".requires"@) && occurs(f.take(f.len() - 9), chr('.'))
}

/// Is this the directory of a target that holds links?
pub fn holds_links(f: &str) -> (r: bool)
    ensures
        r == is_link_dir(f@),
{
    proof {
        reveal_strlit(".wants");
        reveal_strlit(".requires");
    }
    match strip_suffix(f, ".wants") {
        Some(base) => {
            if contains_char(base, '.') {
                return true;
            }
        },
        None => {},
    }
    match strip_suffix(f, ".requires") {
        Some(base) => contains_char(base, '.'),
        None => false,
    }
}

/// The links to a unit that may stand anywhere among the entries of the
/// configuration directory, whatever the unit's section says.
pub open spec fn strays(config_dir: Text, name: Text, entries: Seq<Text>) -> Seq<Text>
    decreases entries.len(),
{
    if entries.len() == 0 {
        seq![]
    } else {
        let rest = strays(config_dir, name, entries.drop_last());
        if is_link_dir(entries.last()) {
            rest.push(below(below(config_dir, entries.last()), name))
        } else {
            rest
        }
    }
}

/// The links to a unit that may stand anywhere: disabling removes them too,
/// and does not report them.
pub fn link_existing(config_dir: &str, name: &str, entries: &Vec<String>) -> (r: Vec<String>)
    ensures
        texts(r@) == strays(config_dir@, file_named(name@), texts(entries@)),
{
    let full = normalize_file_name(name);
    let mut out: Vec<String> = Vec::new();
    let mut i: usize = 0;
    let ghost all = texts(entries@);
    proof {
        assert(all.take(0) =~= seq![]);
        assert(texts(out@) =~= seq![]);
    }
    while i < entries.len()
        invariant
            i <= entries.len(),
            all == texts(entries@),
            texts(out@) == strays(config_dir@, full@, all.take(i as int)),
        decreases entries.len() - i,
    {
        let ghost upto = all.take(i + 1);
        let ghost was = texts(out@);
        let f = entries[i].as_str();
        proof {
            assert(upto.drop_last() =~= all.take(i as int));
            assert(upto.last() == f@);
        }
        if holds_links(f) {
            let link = path_below(path_below(config_dir, f).as_str(), full.as_str());
            let ghost l = link@;
            out.push(link);
            assert(texts(out@) =~= was.push(l));
        }
        i = i + 1;
    }
    assert(all.take(entries.len() as int) =~= all);
    out
}

// ---- the units of `Also=` -------------------------------------------------------

/// The units that are still to be enabled, or disabled, in order. The units
/// that one names under `Also=` come right after it.
pub struct Walk {
    pending: Vec<String>,
}

impl Walk {
    /// The names of the units that are still to be handled.
    pub closed spec fn pending(&self) -> Seq<Text> {
        texts(self.pending@)
    }

    /// Begin with one unit.
    pub fn new(name: &str) -> (r: Walk)
        ensures
            r.pending() == seq![file_named(name@)],
    {
        let mut pending: Vec<String> = Vec::new();
        pending.push(normalize_file_name(name));
        assert(texts(pending@) =~= seq![file_named(name@)]);
        Walk { pending }
    }

    /// The next unit, where there is one.
    pub fn next(&mut self) -> (r: Option<String>)
        ensures
            match r {
                Some(n) => old(self).pending().len() > 0 && n@ == old(self).pending()[0]
                    && final(self).pending() == old(self).pending().skip(1),
                None => old(self).pending().len() == 0 && final(self).pending() == old(
                    self,
                ).pending(),
            },
    {
        if self.pending.len() == 0 {
            return None;
        }
        let n = self.pending.remove(0);
        assert(self.pending() =~= old(self).pending().skip(1));
        Some(n)
    }

    /// The unit that was handled names these too.
    pub fn also(&mut self, also: &Vec<String>)
        ensures
            final(self).pending() == texts(also@) + old(self).pending(),
    {
        let mut all: Vec<String> = Vec::new();
        push_all(&mut all, also);
        push_all(&mut all, &self.pending);
        assert(texts(all@) =~= texts(also@) + self.pending());
        self.pending = all;
    }
}

// ---- what holds of both ---------------------------------------------------------

/// The paths of links.
pub open spec fn link_paths(v: Seq<Link>) -> Set<Text> {
    Set::new(|x: Text| exists|k: int| 0 <= k < v.len() && (#[trigger] v[k]).link == x)
}

/// Each link that enabling makes is one that stands for the unit being enabled.
proof fn plan_is_among_candidates(
    config_dir: Text,
    name: Text,
    path: Text,
    i: InstallSettings,
    k: int,
)
    requires
        0 <= k < link_plan(config_dir, name, path, i).len(),
    ensures
        candidates(config_dir, name, i).contains(link_plan(config_dir, name, path, i)[k].link),
{
    let c = candidates(config_dir, name, i);
    let t = targets(i);
    let n = t.len() as int;
    let l = link_plan(config_dir, name, path, i)[k].link;
    if k < n {
        assert((2 * k) / 2 == k && (2 * k) % 2 == 0);
        assert((2 * k + 1) / 2 == k && (2 * k + 1) % 2 == 1);
        if i.wanted_by.contains(t[k]) {
            assert(c[2 * k] == l);
        } else {
            assert(c[2 * k + 1] == l);
        }
    } else {
        assert(c[k + n] == l);
    }
}

/// A unit whose links were made is enabled: where it is not masked, its file is
/// readable, and its section names a target or an alias.
pub proof fn enabling_enables(
    config_dir: Text,
    name: Text,
    path: Text,
    text: Text,
    i: InstallSettings,
    links: Set<Text>,
)
    requires
        install_in(text, name) == Some(i),
        installable(i),
    ensures
        state_of(
            config_dir,
            name,
            false,
            Some(Some(text)),
            links.union(link_paths(link_plan(config_dir, name, path, i))),
        ) == "enabled"@,
{
    let plan = link_plan(config_dir, name, path, i);
    let c = candidates(config_dir, name, i);
    assert(plan.len() > 0);
    plan_is_among_candidates(config_dir, name, path, i, 0);
    let k = choose|k: int| 0 <= k < c.len() && c[k] == plan[0].link;
    let after = links.union(link_paths(plan));
    assert(link_paths(plan).contains(plan[0].link));
    assert(after.contains(c[k]));
}

/// The links that disabling removes are just those that are there and stand for
/// the unit being enabled.
pub proof fn removals_are_present(v: Seq<Text>, present: Set<Text>, x: Text)
    ensures
        present_among(v, present).contains(x) <==> v.contains(x) && present.contains(x),
    decreases v.len(),
{
    if v.len() > 0 {
        let init = v.drop_last();
        removals_are_present(init, present, x);
        let found = present_among(init, present);
        let now = present_among(v, present);
        if init.contains(x) {
            let j = choose|j: int| 0 <= j < init.len() && init[j] == x;
            assert(v[j] == x);
        }
        if found.contains(x) {
            let j = choose|j: int| 0 <= j < found.len() && found[j] == x;
            assert(now[j] == x);
        }
        if v.contains(x) && !init.contains(x) {
            let j = choose|j: int| 0 <= j < v.len() && v[j] == x;
            assert(j == v.len() - 1) by {
                if j < v.len() - 1 {
                    assert(init[j] == x);
                }
            }
            if present.contains(x) {
                if !found.contains(x) {
                    assert(now.last() == x);
                }
            }
        }
        if now.contains(x) && !found.contains(x) {
            let j = choose|j: int| 0 <= j < now.len() && now[j] == x;
            assert(j == now.len() - 1) by {
                if j < found.len() {
                    assert(found[j] == x);
                }
            }
            assert(v.last() == x);
        }
        if v.len() > 0 && v.last() == x {
            assert(v.contains(x));
            if present.contains(x) && !found.contains(x) {
                assert(now[now.len() - 1] == x);
            }
        }
    }
}

/// A unit whose links were removed is disabled, where its section is readable
/// and names a target or an alias.
pub proof fn disabling_disables(
    config_dir: Text,
    name: Text,
    text: Text,
    i: InstallSettings,
    present: Set<Text>,
)
    requires
        install_in(text, name) == Some(i),
        installable(i),
    ensures
        state_of(
            config_dir,
            name,
            false,
            Some(Some(text)),
            present.difference(removals(config_dir, name, Some(i), present).to_set()),
        ) == "disabled"@,
{
    let c = candidates(config_dir, name, i);
    let gone = removals(config_dir, name, Some(i), present);
    let after = present.difference(gone.to_set());
    assert forall|k: int| 0 <= k < c.len() implies !after.contains(#[trigger] c[k]) by {
        removals_are_present(c, present, c[k]);
        assert(c.contains(c[k]));
    }
}

} // verus!
