//! What the settings of a unit file mean for the unit that is built from it.
//!
//! Each of these says, of a unit file that was accepted, what one of its settings
//! holds, in terms of the values that the file has under the setting's name.

use vstd::prelude::*;

use crate::calendar::calendar_of;
use crate::order::views;
use crate::repo::domain::{Document, Entry, Section};
use crate::specifier::{specified, Specifiers};
use crate::text::{
    chr, find_last_last, find_unique, is_space, lacks, lower, non_spaces, number, occurs, signed32,
    texts, trimmed, trimmed_start, words, Text,
};
use crate::timespan::span_of;
use crate::unit::config::{
    all_words, assignment_item, assignments, assignments_of, calendar_item, cgroup_part,
    command_item, command_of, command_part, cpu_weight_of, file_item, file_of, flagged_view,
    gathered, install_section_of, kill_mode_of, kill_part, kill_signal_of, kind_of_name,
    kind_of_suffix, kind_part, kind_suffix, limit_item, mount_of, nice_of, optional_path,
    pairs_view, restart_of, restart_part, rlimit_part, service_type_of, settings, socket_of,
    span_item, spans_view, stdin_of, stream_part, surrounding_part, tasks_max_of, timer_of,
    unit_of, CommandLine, Commands, ExecCommand, FileSettings, KillMode, MountConfig,
    MountSettings, RestartPolicy, ServiceConfig, ServiceSettings, ServiceType, SocketConfig,
    SocketSettings, Surroundings, TimerConfig, TimerSettings, UnitConfig, UnitFile, UnitKind,
    UnitSettings,
};
use crate::unit::mount_path::mount_path;
use crate::unit::parse::{section_values, tokens, unquoted, value, values};
use crate::unit::values::{
    bool_of, bytes_of, exit_statuses, rlimit_of, signal_of, stdio_of, CgroupLimits, Rlimit,
    RlimitResource, Statuses, Stdio,
};

verus! {

// ---- which values a file has ----------------------------------------------------

/// A setting in a section of its own behind the others.
pub open spec fn with_section(d: Document, section: Text, key: Text, v: Text) -> Document {
    d.push(Section { name: section, entries: seq![Entry { key, value: v }] })
}

/// A setting at the end of the last section.
pub open spec fn with_entry(d: Document, key: Text, v: Text) -> Document {
    let s = d.last();
    d.drop_last().push(Section { name: s.name, entries: s.entries.push(Entry { key, value: v }) })
}

proof fn earlier_entries_stay(a: Section, b: Section, key: Text, k: int)
    requires
        0 <= k <= a.entries.len() <= b.entries.len(),
        forall|i: int| 0 <= i < a.entries.len() ==> a.entries[i] == #[trigger] b.entries[i],
    ensures
        section_values(a, key, k) == section_values(b, key, k),
    decreases k,
{
    if k > 0 {
        earlier_entries_stay(a, b, key, k - 1);
        assert(a.entries[k - 1] == b.entries[k - 1]);
    }
}

/// A setting that is added is the last value of its key in its section, and
/// changes no others: not those of another key, nor those of another section.
pub proof fn added_setting_is_last(d: Document, section: Text, key: Text, v: Text)
    ensures
        values(with_section(d, section, key, v), section, key) == values(d, section, key).push(v),
        forall|s: Text, k: Text|
            s != section || k != key ==> #[trigger] values(
                with_section(d, section, key, v),
                s,
                k,
            ) == values(d, s, k),
        d.len() > 0 && d.last().name == section ==> values(with_entry(d, key, v), section, key)
            == values(d, section, key).push(v),
        forall|s: Text, k: Text|
            d.len() > 0 && (s != d.last().name || k != key) ==> #[trigger] values(
                with_entry(d, key, v),
                s,
                k,
            ) == values(d, s, k),
        forall|s: Text, k: Text| values(seq![], s, k) == Seq::<Text>::empty(),
{
    let e = with_section(d, section, key, v);
    assert(e.drop_last() =~= d);
    let sec = e.last();
    assert(sec.entries[0] == (Entry { key, value: v }));
    assert forall|k: Text| #[trigger] section_values(sec, k, 1) == (if k == key {
        seq![v]
    } else {
        seq![]
    }) by {
        assert(section_values(sec, k, 0) == Seq::<Text>::empty());
        if k == key {
            assert(section_values(sec, k, 1) =~= seq![v]);
        }
    }
    assert(values(e, section, key) =~= values(d, section, key).push(v));
    assert forall|s: Text, k: Text| s != section || k != key implies #[trigger] values(e, s, k)
        == values(d, s, k) by {
        assert(section_values(sec, k, 1) == (if k == key {
            seq![v]
        } else {
            seq![]
        }));
        assert(values(d, s, k) + Seq::<Text>::empty() =~= values(d, s, k));
    }
    if d.len() > 0 {
        let f = with_entry(d, key, v);
        assert(f.drop_last() =~= d.drop_last());
        let a = d.last();
        let b = f.last();
        let n = a.entries.len() as int;
        assert(b.entries[n] == (Entry { key, value: v }));
        assert forall|s: Text, k: Text| s != d.last().name || k != key implies #[trigger] values(
            f,
            s,
            k,
        ) == values(d, s, k) by {
            earlier_entries_stay(a, b, k, n);
            assert(section_values(b, k, n + 1) == (if k == key {
                section_values(b, k, n).push(v)
            } else {
                section_values(b, k, n)
            }));
        }
        if d.last().name == section {
            earlier_entries_stay(a, b, key, n);
            assert(section_values(b, key, n + 1) == section_values(b, key, n).push(v));
            assert(values(f, section, key) =~= values(d, section, key).push(v));
        }
    }
}

/// Does a file set a key?
pub open spec fn is_set(d: Document, section: Text, key: Text) -> bool {
    values(d, section, key).len() > 0
}

/// The value of a key that counts, specifiers expanded.
pub open spec fn final_value(d: Document, c: Specifiers, section: Text, key: Text) -> Text {
    specified(c, values(d, section, key).last())
}

/// Has one file a value more than another one under a key, and is it this one?
pub open spec fn adds(d: Document, e: Document, section: Text, key: Text, v: Text) -> bool {
    values(e, section, key) == values(d, section, key).push(v)
}

proof fn more_words(d: Document, e: Document, c: Specifiers, section: Text, key: Text, v: Text)
    requires
        adds(d, e, section, key, v),
    ensures
        settings(e, c, section, key) == settings(d, c, section, key).push(specified(c, v)),
        all_words(settings(e, c, section, key)) == all_words(settings(d, c, section, key)) + words(
            specified(c, v),
        ),
{
    let x = settings(d, c, section, key);
    let y = settings(e, c, section, key);
    assert(y =~= x.push(specified(c, v)));
    assert(y.drop_last() =~= x);
}

proof fn no_words(d: Document, c: Specifiers, section: Text, key: Text)
    requires
        !is_set(d, section, key),
    ensures
        settings(d, c, section, key) == Seq::<Text>::empty(),
        all_words(settings(d, c, section, key)) == Seq::<Text>::empty(),
{
    assert(settings(d, c, section, key) =~= seq![]);
}

/// Is this the `[Unit]` part of what is built from a file?
#[verifier::opaque]
spec fn builds_unit(d: Document, c: Specifiers, u: UnitSettings) -> bool {
    file_of(d, c) is Ok && file_of(d, c)->Ok_0.unit == u
}

#[verifier::spinoff_prover]
#[verifier::rlimit(60)]
proof fn unit_list_facts(d: Document, c: Specifiers, u: UnitSettings)
    requires
        builds_unit(d, c, u),
    ensures
        u.after == all_words(settings(d, c, "Unit"@, "After"@)),
        u.before == all_words(settings(d, c, "Unit"@, "Before"@)),
        u.requires == all_words(settings(d, c, "Unit"@, "Requires"@)),
        u.requisite == all_words(settings(d, c, "Unit"@, "Requisite"@)),
        u.wants == all_words(settings(d, c, "Unit"@, "Wants"@)),
        u.conflicts == all_words(settings(d, c, "Unit"@, "Conflicts"@)),
        u.on_failure == all_words(settings(d, c, "Unit"@, "OnFailure"@)),
        u.part_of == all_words(settings(d, c, "Unit"@, "PartOf"@)),
        u.binds_to == all_words(settings(d, c, "Unit"@, "BindsTo"@)),
        u.documentation == settings(d, c, "Unit"@, "Documentation"@),
{
    reveal(builds_unit);
}

proof fn list_follows(d: Document, e: Document, c: Specifiers, section: Text, key: Text, v: Text)
    ensures
        !is_set(d, section, key) ==> settings(d, c, section, key).len() == 0 && all_words(
            settings(d, c, section, key),
        ).len() == 0,
        adds(d, e, section, key, v) ==> settings(e, c, section, key) == settings(d, c, section, key)
            + seq![specified(c, v)] && all_words(settings(e, c, section, key)) == all_words(
            settings(d, c, section, key),
        ) + words(specified(c, v)),
{
    if !is_set(d, section, key) {
        no_words(d, c, section, key);
    }
    if adds(d, e, section, key, v) {
        more_words(d, e, c, section, key, v);
        assert(settings(e, c, section, key) =~= settings(d, c, section, key) + seq![
            specified(c, v),
        ]);
    }
}

#[verifier::spinoff_prover]
#[verifier::rlimit(60)]
proof fn unit_lists_follow(
    d: Document,
    e: Document,
    c: Specifiers,
    v: Text,
    x: UnitSettings,
    y: UnitSettings,
)
    requires
        builds_unit(d, c, x),
        builds_unit(e, c, y),
    ensures
        !is_set(d, "Unit"@, "After"@) ==> x.after.len() == 0,
        adds(d, e, "Unit"@, "After"@, v) ==> y.after == x.after + words(specified(c, v)),
        !is_set(d, "Unit"@, "Before"@) ==> x.before.len() == 0,
        adds(d, e, "Unit"@, "Before"@, v) ==> y.before == x.before + words(specified(c, v)),
        !is_set(d, "Unit"@, "Requires"@) ==> x.requires.len() == 0,
        adds(d, e, "Unit"@, "Requires"@, v) ==> y.requires == x.requires + words(specified(c, v)),
        !is_set(d, "Unit"@, "Requisite"@) ==> x.requisite.len() == 0,
        adds(d, e, "Unit"@, "Requisite"@, v) ==> y.requisite == x.requisite + words(specified(c, v)),
        !is_set(d, "Unit"@, "Wants"@) ==> x.wants.len() == 0,
        adds(d, e, "Unit"@, "Wants"@, v) ==> y.wants == x.wants + words(specified(c, v)),
        !is_set(d, "Unit"@, "Conflicts"@) ==> x.conflicts.len() == 0,
        adds(d, e, "Unit"@, "Conflicts"@, v) ==> y.conflicts == x.conflicts + words(specified(c, v)),
        !is_set(d, "Unit"@, "OnFailure"@) ==> x.on_failure.len() == 0,
        adds(d, e, "Unit"@, "OnFailure"@, v) ==> y.on_failure == x.on_failure + words(specified(c, v)),
        !is_set(d, "Unit"@, "PartOf"@) ==> x.part_of.len() == 0,
        adds(d, e, "Unit"@, "PartOf"@, v) ==> y.part_of == x.part_of + words(specified(c, v)),
        !is_set(d, "Unit"@, "BindsTo"@) ==> x.binds_to.len() == 0,
        adds(d, e, "Unit"@, "BindsTo"@, v) ==> y.binds_to == x.binds_to + words(specified(c, v)),
        !is_set(d, "Unit"@, "Documentation"@) ==> x.documentation.len() == 0,
        adds(d, e, "Unit"@, "Documentation"@, v) ==> y.documentation == x.documentation + seq![specified(c, v)],
{
    unit_list_facts(d, c, x);
    unit_list_facts(e, c, y);
    list_follows(d, e, c, "Unit"@, "After"@, v);
    list_follows(d, e, c, "Unit"@, "Before"@, v);
    list_follows(d, e, c, "Unit"@, "Requires"@, v);
    list_follows(d, e, c, "Unit"@, "Requisite"@, v);
    list_follows(d, e, c, "Unit"@, "Wants"@, v);
    list_follows(d, e, c, "Unit"@, "Conflicts"@, v);
    list_follows(d, e, c, "Unit"@, "OnFailure"@, v);
    list_follows(d, e, c, "Unit"@, "PartOf"@, v);
    list_follows(d, e, c, "Unit"@, "BindsTo"@, v);
    list_follows(d, e, c, "Unit"@, "Documentation"@, v);
}

/// The lists of `[Unit]`: each holds the words of the values under its own name,
/// one value behind the other.
#[verifier::spinoff_prover]
#[verifier::rlimit(60)]
pub proof fn unit_lists_are_read(d: Document, e: Document, c: Specifiers, v: Text)
    requires
        file_of(d, c) is Ok,
        file_of(e, c) is Ok,
    ensures
        ({
            let x = file_of(d, c)->Ok_0.unit;
            let y = file_of(e, c)->Ok_0.unit;
            &&& !is_set(d, "Unit"@, "After"@) ==> x.after.len() == 0
            &&& adds(d, e, "Unit"@, "After"@, v) ==> y.after == x.after + words(specified(c, v))
            &&& !is_set(d, "Unit"@, "Before"@) ==> x.before.len() == 0
            &&& adds(d, e, "Unit"@, "Before"@, v) ==> y.before == x.before + words(specified(c, v))
            &&& !is_set(d, "Unit"@, "Requires"@) ==> x.requires.len() == 0
            &&& adds(d, e, "Unit"@, "Requires"@, v) ==> y.requires == x.requires + words(specified(c, v))
            &&& !is_set(d, "Unit"@, "Requisite"@) ==> x.requisite.len() == 0
            &&& adds(d, e, "Unit"@, "Requisite"@, v) ==> y.requisite == x.requisite + words(specified(c, v))
            &&& !is_set(d, "Unit"@, "Wants"@) ==> x.wants.len() == 0
            &&& adds(d, e, "Unit"@, "Wants"@, v) ==> y.wants == x.wants + words(specified(c, v))
            &&& !is_set(d, "Unit"@, "Conflicts"@) ==> x.conflicts.len() == 0
            &&& adds(d, e, "Unit"@, "Conflicts"@, v) ==> y.conflicts == x.conflicts + words(specified(c, v))
            &&& !is_set(d, "Unit"@, "OnFailure"@) ==> x.on_failure.len() == 0
            &&& adds(d, e, "Unit"@, "OnFailure"@, v) ==> y.on_failure == x.on_failure + words(specified(c, v))
            &&& !is_set(d, "Unit"@, "PartOf"@) ==> x.part_of.len() == 0
            &&& adds(d, e, "Unit"@, "PartOf"@, v) ==> y.part_of == x.part_of + words(specified(c, v))
            &&& !is_set(d, "Unit"@, "BindsTo"@) ==> x.binds_to.len() == 0
            &&& adds(d, e, "Unit"@, "BindsTo"@, v) ==> y.binds_to == x.binds_to + words(specified(c, v))
            &&& !is_set(d, "Unit"@, "Documentation"@) ==> x.documentation.len() == 0
            &&& adds(d, e, "Unit"@, "Documentation"@, v) ==> y.documentation == x.documentation + seq![specified(c, v)]
        }),
{
    reveal(builds_unit);
    unit_lists_follow(d, e, c, v, file_of(d, c)->Ok_0.unit, file_of(e, c)->Ok_0.unit);
}

/// The lists of `[Install]`.
pub proof fn install_lists_are_read(d: Document, e: Document, c: Specifiers, v: Text)
    requires
        file_of(d, c) is Ok,
        file_of(e, c) is Ok,
    ensures
        ({
            let x = file_of(d, c)->Ok_0.install;
            let y = file_of(e, c)->Ok_0.install;
            &&& !is_set(d, "Install"@, "WantedBy"@) ==> x.wanted_by.len() == 0
            &&& adds(d, e, "Install"@, "WantedBy"@, v) ==> y.wanted_by == x.wanted_by + words(specified(c, v))
            &&& !is_set(d, "Install"@, "RequiredBy"@) ==> x.required_by.len() == 0
            &&& adds(d, e, "Install"@, "RequiredBy"@, v) ==> y.required_by == x.required_by + words(specified(c, v))
            &&& !is_set(d, "Install"@, "Also"@) ==> x.also.len() == 0
            &&& adds(d, e, "Install"@, "Also"@, v) ==> y.also == x.also + words(specified(c, v))
            &&& !is_set(d, "Install"@, "Alias"@) ==> x.alias.len() == 0
            &&& adds(d, e, "Install"@, "Alias"@, v) ==> y.alias == x.alias + words(specified(c, v))
        }),
{
    if !is_set(d, "Install"@, "WantedBy"@) {
        no_words(d, c, "Install"@, "WantedBy"@);
    }
    if adds(d, e, "Install"@, "WantedBy"@, v) {
        more_words(d, e, c, "Install"@, "WantedBy"@, v);
    }
    if !is_set(d, "Install"@, "RequiredBy"@) {
        no_words(d, c, "Install"@, "RequiredBy"@);
    }
    if adds(d, e, "Install"@, "RequiredBy"@, v) {
        more_words(d, e, c, "Install"@, "RequiredBy"@, v);
    }
    if !is_set(d, "Install"@, "Also"@) {
        no_words(d, c, "Install"@, "Also"@);
    }
    if adds(d, e, "Install"@, "Also"@, v) {
        more_words(d, e, c, "Install"@, "Also"@, v);
    }
    if !is_set(d, "Install"@, "Alias"@) {
        no_words(d, c, "Install"@, "Alias"@);
    }
    if adds(d, e, "Install"@, "Alias"@, v) {
        more_words(d, e, c, "Install"@, "Alias"@, v);
    }
}

/// The `[Install]` section by which a unit is enabled: the same lists, but that
/// each value of `Also=` and `Alias=` is one name.
pub proof fn enabling_reads_the_install_section(d: Document, e: Document, name: Text, v: Text)
    ensures
        ({
            let c = crate::unit::config::name_specifiers(name);
            let x = install_section_of(d, name);
            let y = install_section_of(e, name);
            &&& c.unit_name == name
            &&& !is_set(d, "Install"@, "WantedBy"@) ==> x.wanted_by.len() == 0
            &&& adds(d, e, "Install"@, "WantedBy"@, v) ==> y.wanted_by == x.wanted_by + words(specified(c, v))
            &&& !is_set(d, "Install"@, "RequiredBy"@) ==> x.required_by.len() == 0
            &&& adds(d, e, "Install"@, "RequiredBy"@, v) ==> y.required_by == x.required_by + words(specified(c, v))
            &&& !is_set(d, "Install"@, "Also"@) ==> x.also.len() == 0
            &&& adds(d, e, "Install"@, "Also"@, v) ==> y.also == x.also + seq![specified(c, v)]
            &&& !is_set(d, "Install"@, "Alias"@) ==> x.alias.len() == 0
            &&& adds(d, e, "Install"@, "Alias"@, v) ==> y.alias == x.alias + seq![specified(c, v)]
        }),
{
    let c = crate::unit::config::name_specifiers(name);
    let x = install_section_of(d, name);
    if !is_set(d, "Install"@, "WantedBy"@) {
        no_words(d, c, "Install"@, "WantedBy"@);
    }
    if adds(d, e, "Install"@, "WantedBy"@, v) {
        more_words(d, e, c, "Install"@, "WantedBy"@, v);
    }
    if !is_set(d, "Install"@, "RequiredBy"@) {
        no_words(d, c, "Install"@, "RequiredBy"@);
    }
    if adds(d, e, "Install"@, "RequiredBy"@, v) {
        more_words(d, e, c, "Install"@, "RequiredBy"@, v);
    }
    if !is_set(d, "Install"@, "Also"@) {
        no_words(d, c, "Install"@, "Also"@);
    }
    if adds(d, e, "Install"@, "Also"@, v) {
        more_words(d, e, c, "Install"@, "Also"@, v);
        assert(x.also.push(specified(c, v)) =~= x.also + seq![specified(c, v)]);
    }
    if !is_set(d, "Install"@, "Alias"@) {
        no_words(d, c, "Install"@, "Alias"@);
    }
    if adds(d, e, "Install"@, "Alias"@, v) {
        more_words(d, e, c, "Install"@, "Alias"@, v);
        assert(x.alias.push(specified(c, v)) =~= x.alias + seq![specified(c, v)]);
    }
}

/// What else `[Unit]` says: the description, without quotes around it, and
/// whether there are default dependencies.
pub proof fn unit_settings_are_read(d: Document, c: Specifiers)
    requires
        file_of(d, c) is Ok,
    ensures
        ({
            let u = file_of(d, c)->Ok_0.unit;
            &&& is_set(d, "Unit"@, "Description"@) ==> unquoted(
                final_value(d, c, "Unit"@, "Description"@),
            ) == Ok::<Text, Text>(u.description)
            &&& !is_set(d, "Unit"@, "Description"@) ==> u.description.len() == 0
            &&& is_set(d, "Unit"@, "DefaultDependencies"@) ==> bool_of(
                final_value(d, c, "Unit"@, "DefaultDependencies"@),
            ) == Ok::<bool, Text>(u.default_dependencies)
            &&& !is_set(d, "Unit"@, "DefaultDependencies"@) ==> u.default_dependencies
        }),
{
}

/// A unit has the section that the suffix of its name asks for, and no other.
pub proof fn the_suffix_decides_the_section(d: Document, c: Specifiers)
    requires
        file_of(d, c) is Ok,
    ensures
        ({
            let f = file_of(d, c)->Ok_0;
            &&& (f.service is Some <==> crate::text::ends(c.unit_name, ".service"@))
            &&& (f.timer is Some <==> crate::text::ends(c.unit_name, ".timer"@))
            &&& (f.socket is Some <==> crate::text::ends(c.unit_name, ".socket"@))
            &&& (f.mount is Some <==> crate::text::ends(c.unit_name, ".mount"@))
        }),
{
    suffix_is_what_ends_the_name(c.unit_name);
}

/// The kind of a unit is told by how its name ends.
pub proof fn suffix_is_what_ends_the_name(name: Text)
    ensures
        kind_of_name(name) == Some(UnitKind::Service) <==> crate::text::ends(name, ".service"@),
        kind_of_name(name) == Some(UnitKind::Timer) <==> crate::text::ends(name, ".timer"@),
        kind_of_name(name) == Some(UnitKind::Target) <==> crate::text::ends(name, ".target"@),
        kind_of_name(name) == Some(UnitKind::Socket) <==> crate::text::ends(name, ".socket"@),
        kind_of_name(name) == Some(UnitKind::Device) <==> crate::text::ends(name, ".device"@),
        kind_of_name(name) == Some(UnitKind::Mount) <==> crate::text::ends(name, ".mount"@),
{
    reveal_strlit("service");
    reveal_strlit("timer");
    reveal_strlit("target");
    reveal_strlit("socket");
    reveal_strlit("device");
    reveal_strlit("mount");
    reveal_strlit(".service");
    reveal_strlit(".timer");
    reveal_strlit(".target");
    reveal_strlit(".socket");
    reveal_strlit(".device");
    reveal_strlit(".mount");
    assert("service"@ =~= seq!['s', 'e', 'r', 'v', 'i', 'c', 'e']);
    assert("timer"@ =~= seq!['t', 'i', 'm', 'e', 'r']);
    assert("target"@ =~= seq!['t', 'a', 'r', 'g', 'e', 't']);
    assert("socket"@ =~= seq!['s', 'o', 'c', 'k', 'e', 't']);
    assert("device"@ =~= seq!['d', 'e', 'v', 'i', 'c', 'e']);
    assert("mount"@ =~= seq!['m', 'o', 'u', 'n', 't']);
    assert(".service"@ =~= seq!['.', 's', 'e', 'r', 'v', 'i', 'c', 'e']);
    assert(".timer"@ =~= seq!['.', 't', 'i', 'm', 'e', 'r']);
    assert(".target"@ =~= seq!['.', 't', 'a', 'r', 'g', 'e', 't']);
    assert(".socket"@ =~= seq!['.', 's', 'o', 'c', 'k', 'e', 't']);
    assert(".device"@ =~= seq!['.', 'd', 'e', 'v', 'i', 'c', 'e']);
    assert(".mount"@ =~= seq!['.', 'm', 'o', 'u', 'n', 't']);
    ends_with_suffix(name, "service"@);
    assert(seq!['.'] + "service"@ =~= ".service"@);
    ends_with_suffix(name, "timer"@);
    assert(seq!['.'] + "timer"@ =~= ".timer"@);
    ends_with_suffix(name, "target"@);
    assert(seq!['.'] + "target"@ =~= ".target"@);
    ends_with_suffix(name, "socket"@);
    assert(seq!['.'] + "socket"@ =~= ".socket"@);
    ends_with_suffix(name, "device"@);
    assert(seq!['.'] + "device"@ =~= ".device"@);
    ends_with_suffix(name, "mount"@);
    assert(seq!['.'] + "mount"@ =~= ".mount"@);
}

/// A text ends in a dot and a word without dots just where the word follows its
/// last dot.
proof fn ends_with_suffix(name: Text, w: Text)
    requires
        crate::text::lacks(w, '.'),
    ensures
        crate::text::ends(name, seq!['.'] + w) <==> match crate::text::cut_last(name, '.') {
            Some((_, s)) => s == w,
            None => false,
        },
{
    let p = crate::text::chr('.');
    crate::text::find_last_last(name, p);
    let k = crate::text::find_last(name, p) as int;
    let t = seq!['.'] + w;
    if crate::text::ends(name, t) {
        let n = name.len() - t.len();
        let tail = name.skip(n);
        assert(tail[0] == '.');
        assert forall|i: int| n + 1 <= i < name.len() implies !p(#[trigger] name[i]) by {
            assert(tail[i - n] == name[i]);
            assert(w[i - n - 1] == t[i - n]);
        }
        assert(name[n] == '.');
        crate::text::find_last_unique(name, p, n + 1);
        assert(name.skip(n + 1) =~= tail.skip(1));
        assert(t.skip(1) =~= w);
    }
    match crate::text::cut_last(name, '.') {
        Some((_, s)) => {
            if s == w {
                assert(p(name[k - 1]));
                assert(name.skip(k - 1) =~= t);
            }
        },
        None => {},
    }
}

/// Is this what a unit file says of a service?
#[verifier::opaque]
pub open spec fn builds_service(d: Document, c: Specifiers, s: ServiceSettings) -> bool {
    file_of(d, c) is Ok && file_of(d, c)->Ok_0.service == Some(s)
}

/// Is this what a unit file says of a timer?
#[verifier::opaque]
pub open spec fn builds_timer(d: Document, c: Specifiers, t: TimerSettings) -> bool {
    file_of(d, c) is Ok && file_of(d, c)->Ok_0.timer == Some(t)
}

/// Is this what a unit file says of a socket?
#[verifier::opaque]
pub open spec fn builds_socket(d: Document, c: Specifiers, t: SocketSettings) -> bool {
    file_of(d, c) is Ok && file_of(d, c)->Ok_0.socket == Some(t)
}

/// Is this what a unit file says of a mount?
#[verifier::opaque]
pub open spec fn builds_mount(d: Document, c: Specifiers, t: MountSettings) -> bool {
    file_of(d, c) is Ok && file_of(d, c)->Ok_0.mount == Some(t)
}

proof fn kind_facts(d: Document, c: Specifiers, s: ServiceSettings)
    requires
        builds_service(d, c, s),
    ensures
        kind_part(d, c) == Ok::<(ServiceType, Option<Text>, bool), Text>(
            (s.service_type, s.bus_name, s.remain_after_exit),
        ),
{
    reveal(builds_service);
}

proof fn command_facts(d: Document, c: Specifiers, s: ServiceSettings)
    requires
        builds_service(d, c, s),
    ensures
        command_part(d, c) == Ok::<Commands, Text>(
            Commands {
                start_pre: s.exec_start_pre,
                start: s.exec_start,
                start_post: s.exec_start_post,
                stop: s.exec_stop,
                reload: s.exec_reload,
            },
        ),
{
    reveal(builds_service);
}

proof fn restart_facts(d: Document, c: Specifiers, s: ServiceSettings)
    requires
        builds_service(d, c, s),
    ensures
        restart_part(d, c) == Ok::<(RestartPolicy, nat, nat, nat), Text>(
            (s.restart, s.restart_sec, s.timeout_start_sec, s.timeout_stop_sec),
        ),
{
    reveal(builds_service);
}

proof fn surrounding_facts(d: Document, c: Specifiers, s: ServiceSettings)
    requires
        builds_service(d, c, s),
    ensures
        surrounding_part(d, c) == Ok::<Surroundings, Text>(
            Surroundings {
                environment: s.environment,
                environment_files: s.environment_files,
                working_directory: s.working_directory,
                user: s.user,
                group: s.group,
                nice: s.nice,
                umask: s.umask,
            },
        ),
{
    reveal(builds_service);
}

proof fn kill_facts(d: Document, c: Specifiers, s: ServiceSettings)
    requires
        builds_service(d, c, s),
    ensures
        kill_part(d, c) == Ok::<(Option<int>, KillMode, bool, Option<Statuses>, Option<Text>), Text>(
            (s.kill_signal, s.kill_mode, s.send_sigkill, s.success_exit_status, s.pid_file),
        ),
{
    reveal(builds_service);
}

proof fn rlimit_facts(d: Document, c: Specifiers, s: ServiceSettings)
    requires
        builds_service(d, c, s),
    ensures
        rlimit_part(d, c) == Ok::<Seq<Rlimit>, Text>(
            s.rlimits,
        ),
{
    reveal(builds_service);
}

proof fn cgroup_facts(d: Document, c: Specifiers, s: ServiceSettings)
    requires
        builds_service(d, c, s),
    ensures
        cgroup_part(d, c) == Ok::<CgroupLimits, Text>(
            s.cgroup_limits,
        ),
{
    reveal(builds_service);
}

proof fn stream_facts(d: Document, c: Specifiers, s: ServiceSettings)
    requires
        builds_service(d, c, s),
    ensures
        stream_part(d, c) == Ok::<(Stdio, Stdio, bool), Text>(
            (s.std_output, s.std_error, s.std_input),
        ),
{
    reveal(builds_service);
}

proof fn timer_facts(d: Document, c: Specifiers, t: TimerSettings)
    requires
        builds_timer(d, c, t),
    ensures
        timer_of(d, c) == Ok::<TimerSettings, Text>(t),
{
    reveal(builds_timer);
}

proof fn socket_facts(d: Document, c: Specifiers, t: SocketSettings)
    requires
        builds_socket(d, c, t),
    ensures
        socket_of(d, c) == Ok::<SocketSettings, Text>(t),
{
    reveal(builds_socket);
}

proof fn mount_facts(d: Document, c: Specifiers, t: MountSettings)
    requires
        builds_mount(d, c, t),
    ensures
        mount_of(d, c) == Ok::<MountSettings, Text>(t),
{
    reveal(builds_mount);
}

/// The names of the types of services, in any case.
pub proof fn type_names(t: Text)
    ensures
        service_type_of(Some(t)) == Ok::<ServiceType, Text>(ServiceType::Simple) <==> (lower(t) == "simple"@),
        service_type_of(Some(t)) == Ok::<ServiceType, Text>(ServiceType::Exec) <==> (lower(t) == "exec"@),
        service_type_of(Some(t)) == Ok::<ServiceType, Text>(ServiceType::Oneshot) <==> (lower(t) == "oneshot"@),
        service_type_of(Some(t)) == Ok::<ServiceType, Text>(ServiceType::Forking) <==> (lower(t) == "forking"@),
        service_type_of(Some(t)) == Ok::<ServiceType, Text>(ServiceType::Notify) <==> (lower(t) == "notify"@),
        service_type_of(Some(t)) == Ok::<ServiceType, Text>(ServiceType::Dbus) <==> (lower(t) == "dbus"@),
        service_type_of(Some(t)) == Ok::<ServiceType, Text>(ServiceType::Idle) <==> (lower(t) == "idle"@),
{
    reveal_strlit("simple");
    reveal_strlit("exec");
    reveal_strlit("oneshot");
    reveal_strlit("forking");
    reveal_strlit("notify");
    reveal_strlit("dbus");
    reveal_strlit("idle");
    assert("simple"@ =~= seq!['s', 'i', 'm', 'p', 'l', 'e']);
    assert("exec"@ =~= seq!['e', 'x', 'e', 'c']);
    assert("oneshot"@ =~= seq!['o', 'n', 'e', 's', 'h', 'o', 't']);
    assert("forking"@ =~= seq!['f', 'o', 'r', 'k', 'i', 'n', 'g']);
    assert("notify"@ =~= seq!['n', 'o', 't', 'i', 'f', 'y']);
    assert("dbus"@ =~= seq!['d', 'b', 'u', 's']);
    assert("idle"@ =~= seq!['i', 'd', 'l', 'e']);
}

/// `Type=` is the type of that name, in any case; without it a service is simple.
pub proof fn service_type_is_the_one_named(d: Document, c: Specifiers, s: ServiceSettings)
    requires
        builds_service(d, c, s),
    ensures
        !is_set(d, "Service"@, "Type"@) ==> s.service_type == ServiceType::Simple,
        is_set(d, "Service"@, "Type"@) ==> (s.service_type == ServiceType::Simple <==> (lower(final_value(d, c, "Service"@, "Type"@)) == "simple"@)),
        is_set(d, "Service"@, "Type"@) ==> (s.service_type == ServiceType::Exec <==> (lower(final_value(d, c, "Service"@, "Type"@)) == "exec"@)),
        is_set(d, "Service"@, "Type"@) ==> (s.service_type == ServiceType::Oneshot <==> (lower(final_value(d, c, "Service"@, "Type"@)) == "oneshot"@)),
        is_set(d, "Service"@, "Type"@) ==> (s.service_type == ServiceType::Forking <==> (lower(final_value(d, c, "Service"@, "Type"@)) == "forking"@)),
        is_set(d, "Service"@, "Type"@) ==> (s.service_type == ServiceType::Notify <==> (lower(final_value(d, c, "Service"@, "Type"@)) == "notify"@)),
        is_set(d, "Service"@, "Type"@) ==> (s.service_type == ServiceType::Dbus <==> (lower(final_value(d, c, "Service"@, "Type"@)) == "dbus"@)),
        is_set(d, "Service"@, "Type"@) ==> (s.service_type == ServiceType::Idle <==> (lower(final_value(d, c, "Service"@, "Type"@)) == "idle"@)),
{
    kind_facts(d, c, s);
    type_names(final_value(d, c, "Service"@, "Type"@));
}

/// The names of the restart policies, in any case.
pub proof fn restart_names(t: Text)
    ensures
        restart_of(Some(t)) == Ok::<RestartPolicy, Text>(RestartPolicy::No) <==> (lower(t) == "no"@),
        restart_of(Some(t)) == Ok::<RestartPolicy, Text>(RestartPolicy::OnSuccess) <==> (lower(t) == "on-success"@),
        restart_of(Some(t)) == Ok::<RestartPolicy, Text>(RestartPolicy::OnFailure) <==> (lower(t) == "on-failure"@),
        restart_of(Some(t)) == Ok::<RestartPolicy, Text>(RestartPolicy::OnAbnormal) <==> (lower(t) == "on-abnormal"@),
        restart_of(Some(t)) == Ok::<RestartPolicy, Text>(RestartPolicy::OnAbort) <==> (lower(t) == "on-abort"@),
        restart_of(Some(t)) == Ok::<RestartPolicy, Text>(RestartPolicy::OnWatchdog) <==> (lower(t) == "on-watchdog"@),
        restart_of(Some(t)) == Ok::<RestartPolicy, Text>(RestartPolicy::Always) <==> (lower(t) == "always"@),
{
    reveal_strlit("no");
    reveal_strlit("on-success");
    reveal_strlit("on-failure");
    reveal_strlit("on-abnormal");
    reveal_strlit("on-abort");
    reveal_strlit("on-watchdog");
    reveal_strlit("always");
    assert("no"@ =~= seq!['n', 'o']);
    assert("on-success"@ =~= seq!['o', 'n', '-', 's', 'u', 'c', 'c', 'e', 's', 's']);
    assert("on-failure"@ =~= seq!['o', 'n', '-', 'f', 'a', 'i', 'l', 'u', 'r', 'e']);
    assert("on-abnormal"@ =~= seq!['o', 'n', '-', 'a', 'b', 'n', 'o', 'r', 'm', 'a', 'l']);
    assert("on-abort"@ =~= seq!['o', 'n', '-', 'a', 'b', 'o', 'r', 't']);
    assert("on-watchdog"@ =~= seq!['o', 'n', '-', 'w', 'a', 't', 'c', 'h', 'd', 'o', 'g']);
    assert("always"@ =~= seq!['a', 'l', 'w', 'a', 'y', 's']);
}

/// `Restart=` is the policy of that name, in any case: a name gives its own policy
/// and no other one does. Without it a service is not restarted.
pub proof fn restart_policy_is_the_one_named(d: Document, c: Specifiers, s: ServiceSettings)
    requires
        builds_service(d, c, s),
    ensures
        !is_set(d, "Service"@, "Restart"@) ==> s.restart == RestartPolicy::No,
        is_set(d, "Service"@, "Restart"@) ==> (s.restart == RestartPolicy::No <==> (lower(final_value(d, c, "Service"@, "Restart"@)) == "no"@)),
        is_set(d, "Service"@, "Restart"@) ==> (s.restart == RestartPolicy::OnSuccess <==> (lower(final_value(d, c, "Service"@, "Restart"@)) == "on-success"@)),
        is_set(d, "Service"@, "Restart"@) ==> (s.restart == RestartPolicy::OnFailure <==> (lower(final_value(d, c, "Service"@, "Restart"@)) == "on-failure"@)),
        is_set(d, "Service"@, "Restart"@) ==> (s.restart == RestartPolicy::OnAbnormal <==> (lower(final_value(d, c, "Service"@, "Restart"@)) == "on-abnormal"@)),
        is_set(d, "Service"@, "Restart"@) ==> (s.restart == RestartPolicy::OnAbort <==> (lower(final_value(d, c, "Service"@, "Restart"@)) == "on-abort"@)),
        is_set(d, "Service"@, "Restart"@) ==> (s.restart == RestartPolicy::OnWatchdog <==> (lower(final_value(d, c, "Service"@, "Restart"@)) == "on-watchdog"@)),
        is_set(d, "Service"@, "Restart"@) ==> (s.restart == RestartPolicy::Always <==> (lower(final_value(d, c, "Service"@, "Restart"@)) == "always"@)),
{
    restart_facts(d, c, s);
    restart_names(final_value(d, c, "Service"@, "Restart"@));
}

/// The names of the kill modes, in any case.
pub proof fn kill_mode_names(t: Text)
    ensures
        kill_mode_of(Some(t)) == Ok::<KillMode, Text>(KillMode::Process) <==> (lower(t) == "process"@),
        kill_mode_of(Some(t)) == Ok::<KillMode, Text>(KillMode::ControlGroup) <==> (lower(t) == "control-group"@ || lower(t) == "mixed"@ || lower(t) == "none"@),
{
    reveal_strlit("process");
    reveal_strlit("control-group");
    reveal_strlit("mixed");
    reveal_strlit("none");
    assert("process"@ =~= seq!['p', 'r', 'o', 'c', 'e', 's', 's']);
    assert("control-group"@ =~= seq!['c', 'o', 'n', 't', 'r', 'o', 'l', '-', 'g', 'r', 'o', 'u', 'p']);
    assert("mixed"@ =~= seq!['m', 'i', 'x', 'e', 'd']);
    assert("none"@ =~= seq!['n', 'o', 'n', 'e']);
}

/// `KillMode=`: only `process` spares the rest of the group.
pub proof fn kill_mode_is_the_one_named(d: Document, c: Specifiers, s: ServiceSettings)
    requires
        builds_service(d, c, s),
    ensures
        !is_set(d, "Service"@, "KillMode"@) ==> s.kill_mode == KillMode::ControlGroup,
        is_set(d, "Service"@, "KillMode"@) ==> (s.kill_mode == KillMode::Process <==> (lower(final_value(d, c, "Service"@, "KillMode"@)) == "process"@)),
        is_set(d, "Service"@, "KillMode"@) ==> (s.kill_mode == KillMode::ControlGroup <==> (lower(final_value(d, c, "Service"@, "KillMode"@)) == "control-group"@ || lower(final_value(d, c, "Service"@, "KillMode"@)) == "mixed"@ || lower(final_value(d, c, "Service"@, "KillMode"@)) == "none"@)),
{
    kill_facts(d, c, s);
    kill_mode_names(final_value(d, c, "Service"@, "KillMode"@));
}

/// The names of the inputs, in any case.
pub proof fn input_names(t: Text)
    ensures
        stdin_of(Some(t)) == Ok::<bool, Text>(true) <==> (lower(t) == "inherit"@ || lower(t) == "tty"@),
        stdin_of(Some(t)) == Ok::<bool, Text>(false) <==> (lower(t) == "null"@ || lower(t) == "data"@),
{
    reveal_strlit("inherit");
    reveal_strlit("tty");
    reveal_strlit("null");
    reveal_strlit("data");
    assert("inherit"@ =~= seq!['i', 'n', 'h', 'e', 'r', 'i', 't']);
    assert("tty"@ =~= seq!['t', 't', 'y']);
    assert("null"@ =~= seq!['n', 'u', 'l', 'l']);
    assert("data"@ =~= seq!['d', 'a', 't', 'a']);
}

/// `StandardInput=`: it is inherited for `inherit` and `tty` alone.
pub proof fn standard_input_is_the_one_named(d: Document, c: Specifiers, s: ServiceSettings)
    requires
        builds_service(d, c, s),
    ensures
        !is_set(d, "Service"@, "StandardInput"@) ==> !s.std_input,
        is_set(d, "Service"@, "StandardInput"@) ==> (s.std_input <==> (lower(final_value(d, c, "Service"@, "StandardInput"@)) == "inherit"@ || lower(final_value(d, c, "Service"@, "StandardInput"@)) == "tty"@)),
{
    stream_facts(d, c, s);
    input_names(final_value(d, c, "Service"@, "StandardInput"@));
}

/// The times of a service: `RestartSec=` is a tenth of a second, and the timeouts
/// are ninety seconds, where they are not set.
pub proof fn service_times_are_read(d: Document, c: Specifiers, s: ServiceSettings)
    requires
        builds_service(d, c, s),
    ensures
        !is_set(d, "Service"@, "RestartSec"@) ==> s.restart_sec == 100_000,
        is_set(d, "Service"@, "RestartSec"@) ==> span_of(final_value(d, c, "Service"@, "RestartSec"@)) == Ok::<nat, Text>(s.restart_sec),
        !is_set(d, "Service"@, "TimeoutStartSec"@) ==> s.timeout_start_sec == 90_000_000,
        is_set(d, "Service"@, "TimeoutStartSec"@) ==> span_of(final_value(d, c, "Service"@, "TimeoutStartSec"@)) == Ok::<nat, Text>(s.timeout_start_sec),
        !is_set(d, "Service"@, "TimeoutStopSec"@) ==> s.timeout_stop_sec == 90_000_000,
        is_set(d, "Service"@, "TimeoutStopSec"@) ==> span_of(final_value(d, c, "Service"@, "TimeoutStopSec"@)) == Ok::<nat, Text>(s.timeout_stop_sec),
{
    restart_facts(d, c, s);
}

/// The switches of a service.
pub proof fn service_switches_are_read(d: Document, c: Specifiers, s: ServiceSettings)
    requires
        builds_service(d, c, s),
    ensures
        !is_set(d, "Service"@, "RemainAfterExit"@) ==> !s.remain_after_exit,
        is_set(d, "Service"@, "RemainAfterExit"@) ==> bool_of(final_value(d, c, "Service"@, "RemainAfterExit"@)) == Ok::<bool, Text>(s.remain_after_exit),
        !is_set(d, "Service"@, "SendSIGKILL"@) ==> s.send_sigkill,
        is_set(d, "Service"@, "SendSIGKILL"@) ==> bool_of(final_value(d, c, "Service"@, "SendSIGKILL"@)) == Ok::<bool, Text>(s.send_sigkill),
{
    kind_facts(d, c, s);
    kill_facts(d, c, s);
}

/// What a service runs as, and where.
pub proof fn what_a_service_runs_as_is_read(d: Document, c: Specifiers, s: ServiceSettings)
    requires
        builds_service(d, c, s),
    ensures
        !is_set(d, "Service"@, "User"@) ==> s.user is None,
        is_set(d, "Service"@, "User"@) ==> s.user == Some(final_value(d, c, "Service"@, "User"@)),
        !is_set(d, "Service"@, "Group"@) ==> s.group is None,
        is_set(d, "Service"@, "Group"@) ==> s.group == Some(final_value(d, c, "Service"@, "Group"@)),
        !is_set(d, "Service"@, "WorkingDirectory"@) ==> s.working_directory is None,
        is_set(d, "Service"@, "WorkingDirectory"@) ==> s.working_directory == Some(optional_path(final_value(d, c, "Service"@, "WorkingDirectory"@))),
        !is_set(d, "Service"@, "Nice"@) ==> s.nice is None,
        is_set(d, "Service"@, "Nice"@) ==> s.nice == signed32(final_value(d, c, "Service"@, "Nice"@)) && s.nice is Some,
        !is_set(d, "Service"@, "UMask"@) ==> s.umask is None,
        is_set(d, "Service"@, "UMask"@) ==> s.umask is Some && number(final_value(d, c, "Service"@, "UMask"@), 8, u32::MAX as nat) == Some(s.umask->0 as nat),
        !is_set(d, "Service"@, "BusName"@) ==> s.bus_name is None,
        is_set(d, "Service"@, "BusName"@) ==> s.bus_name is Some && unquoted(final_value(d, c, "Service"@, "BusName"@)) == Ok::<Text, Text>(s.bus_name->0),
        !is_set(d, "Service"@, "PIDFile"@) ==> s.pid_file is None,
        is_set(d, "Service"@, "PIDFile"@) ==> s.pid_file is Some && unquoted(final_value(d, c, "Service"@, "PIDFile"@)) == Ok::<Text, Text>(s.pid_file->0),
{
    surrounding_facts(d, c, s);
    kind_facts(d, c, s);
    kill_facts(d, c, s);
}

/// The signal that stops a service, and the exits that count as success.
pub proof fn how_a_service_ends_is_read(d: Document, c: Specifiers, s: ServiceSettings)
    requires
        builds_service(d, c, s),
    ensures
        !is_set(d, "Service"@, "KillSignal"@) ==> s.kill_signal is None,
        is_set(d, "Service"@, "KillSignal"@) ==> s.kill_signal is Some && s.kill_signal == signal_of(words(final_value(d, c, "Service"@, "KillSignal"@))[0]),
        !is_set(d, "Service"@, "SuccessExitStatus"@) ==> s.success_exit_status is None,
        is_set(d, "Service"@, "SuccessExitStatus"@) ==> s.success_exit_status is Some && exit_statuses(final_value(d, c, "Service"@, "SuccessExitStatus"@)) == Ok::<Statuses, Text>(s.success_exit_status->0),
{
    kill_facts(d, c, s);
}

/// The limits of a service's control group.
pub proof fn group_limits_are_read(d: Document, c: Specifiers, s: ServiceSettings)
    requires
        builds_service(d, c, s),
    ensures
        !is_set(d, "Service"@, "MemoryMax"@) ==> s.cgroup_limits.memory_max is None,
        is_set(d, "Service"@, "MemoryMax"@) ==> s.cgroup_limits.memory_max is Some && bytes_of(final_value(d, c, "Service"@, "MemoryMax"@)) == Ok::<u64, Text>(s.cgroup_limits.memory_max->0),
        !is_set(d, "Service"@, "MemoryHigh"@) ==> s.cgroup_limits.memory_high is None,
        is_set(d, "Service"@, "MemoryHigh"@) ==> s.cgroup_limits.memory_high is Some && bytes_of(final_value(d, c, "Service"@, "MemoryHigh"@)) == Ok::<u64, Text>(s.cgroup_limits.memory_high->0),
        !is_set(d, "Service"@, "CPUWeight"@) ==> s.cgroup_limits.cpu_weight is None,
        is_set(d, "Service"@, "CPUWeight"@) ==> s.cgroup_limits.cpu_weight is Some && number(trimmed(final_value(d, c, "Service"@, "CPUWeight"@)), 10, 10_000) == Some(s.cgroup_limits.cpu_weight->0 as nat) && s.cgroup_limits.cpu_weight->0 >= 1,
        !is_set(d, "Service"@, "TasksMax"@) ==> s.cgroup_limits.tasks_max is None,
        is_set(d, "Service"@, "TasksMax"@) ==> s.cgroup_limits.tasks_max is Some && (if lower(trimmed(final_value(d, c, "Service"@, "TasksMax"@))) == lower("infinity"@) { s.cgroup_limits.tasks_max->0 == u64::MAX } else { number(trimmed(final_value(d, c, "Service"@, "TasksMax"@)), 10, u64::MAX as nat) == Some(s.cgroup_limits.tasks_max->0 as nat) }),
{
    cgroup_facts(d, c, s);
}

/// Where a service's output goes; to its log where nothing is set.
pub proof fn streams_are_read(d: Document, c: Specifiers, s: ServiceSettings)
    requires
        builds_service(d, c, s),
    ensures
        !is_set(d, "Service"@, "StandardOutput"@) ==> s.std_output == Stdio::Journal,
        is_set(d, "Service"@, "StandardOutput"@) ==> stdio_of(final_value(d, c, "Service"@, "StandardOutput"@)) == Ok::<Stdio, Text>(s.std_output),
        !is_set(d, "Service"@, "StandardError"@) ==> s.std_error == Stdio::Journal,
        is_set(d, "Service"@, "StandardError"@) ==> stdio_of(final_value(d, c, "Service"@, "StandardError"@)) == Ok::<Stdio, Text>(s.std_error),
{
    stream_facts(d, c, s);
}

proof fn more_items<A>(
    d: Document,
    e: Document,
    c: Specifiers,
    section: Text,
    key: Text,
    v: Text,
    f: spec_fn(Text) -> Result<Seq<A>, Text>,
)
    requires
        adds(d, e, section, key, v),
        gathered(settings(e, c, section, key), f) is Ok,
    ensures
        gathered(settings(d, c, section, key), f) is Ok,
        f(specified(c, v)) is Ok,
        gathered(settings(e, c, section, key), f)->Ok_0 == gathered(
            settings(d, c, section, key),
            f,
        )->Ok_0 + f(specified(c, v))->Ok_0,
{
    more_words(d, e, c, section, key, v);
    let y = settings(e, c, section, key);
    assert(y.drop_last() =~= settings(d, c, section, key));
    assert(y.last() == specified(c, v));
}

/// The commands of a service: each value under a name adds the command that it
/// gives to the commands of that name.
pub proof fn commands_are_read(
    d: Document,
    e: Document,
    c: Specifiers,
    x: ServiceSettings,
    y: ServiceSettings,
    v: Text,
)
    requires
        builds_service(d, c, x),
        builds_service(e, c, y),
    ensures
        !is_set(d, "Service"@, "ExecStartPre"@) ==> x.exec_start_pre.len() == 0,
        adds(d, e, "Service"@, "ExecStartPre"@, v) ==> command_of(specified(c, v)) is Ok && y.exec_start_pre == x.exec_start_pre + command_of(specified(c, v))->Ok_0,
        !is_set(d, "Service"@, "ExecStart"@) ==> x.exec_start.len() == 0,
        adds(d, e, "Service"@, "ExecStart"@, v) ==> command_of(specified(c, v)) is Ok && y.exec_start == x.exec_start + command_of(specified(c, v))->Ok_0,
        !is_set(d, "Service"@, "ExecStartPost"@) ==> x.exec_start_post.len() == 0,
        adds(d, e, "Service"@, "ExecStartPost"@, v) ==> command_of(specified(c, v)) is Ok && y.exec_start_post == x.exec_start_post + command_of(specified(c, v))->Ok_0,
        !is_set(d, "Service"@, "ExecStop"@) ==> x.exec_stop.len() == 0,
        adds(d, e, "Service"@, "ExecStop"@, v) ==> command_of(specified(c, v)) is Ok && y.exec_stop == x.exec_stop + command_of(specified(c, v))->Ok_0,
        !is_set(d, "Service"@, "ExecReload"@) ==> x.exec_reload.len() == 0,
        adds(d, e, "Service"@, "ExecReload"@, v) ==> command_of(specified(c, v)) is Ok && y.exec_reload == x.exec_reload + command_of(specified(c, v))->Ok_0,
{
    command_facts(d, c, x);
    command_facts(e, c, y);
    if !is_set(d, "Service"@, "ExecStartPre"@) {
        no_words(d, c, "Service"@, "ExecStartPre"@);
    }
    if adds(d, e, "Service"@, "ExecStartPre"@, v) {
        more_items(d, e, c, "Service"@, "ExecStartPre"@, v, command_item());
    }
    if !is_set(d, "Service"@, "ExecStart"@) {
        no_words(d, c, "Service"@, "ExecStart"@);
    }
    if adds(d, e, "Service"@, "ExecStart"@, v) {
        more_items(d, e, c, "Service"@, "ExecStart"@, v, command_item());
    }
    if !is_set(d, "Service"@, "ExecStartPost"@) {
        no_words(d, c, "Service"@, "ExecStartPost"@);
    }
    if adds(d, e, "Service"@, "ExecStartPost"@, v) {
        more_items(d, e, c, "Service"@, "ExecStartPost"@, v, command_item());
    }
    if !is_set(d, "Service"@, "ExecStop"@) {
        no_words(d, c, "Service"@, "ExecStop"@);
    }
    if adds(d, e, "Service"@, "ExecStop"@, v) {
        more_items(d, e, c, "Service"@, "ExecStop"@, v, command_item());
    }
    if !is_set(d, "Service"@, "ExecReload"@) {
        no_words(d, c, "Service"@, "ExecReload"@);
    }
    if adds(d, e, "Service"@, "ExecReload"@, v) {
        more_items(d, e, c, "Service"@, "ExecReload"@, v, command_item());
    }
}

/// The environment of a service: each value adds the assignments, or the files,
/// that its words are.
pub proof fn environment_is_read(
    d: Document,
    e: Document,
    c: Specifiers,
    x: ServiceSettings,
    y: ServiceSettings,
    v: Text,
)
    requires
        builds_service(d, c, x),
        builds_service(e, c, y),
    ensures
        !is_set(d, "Service"@, "Environment"@) ==> x.environment.len() == 0,
        adds(d, e, "Service"@, "Environment"@, v) ==> assignments_of(specified(c, v)) is Ok && y.environment == x.environment + assignments_of(specified(c, v))->Ok_0,
        !is_set(d, "Service"@, "EnvironmentFile"@) ==> x.environment_files.len() == 0,
        adds(d, e, "Service"@, "EnvironmentFile"@, v) ==> tokens(specified(c, v)) is Ok && y.environment_files == x.environment_files + Seq::new(tokens(specified(c, v))->Ok_0.len(), |k: int| optional_path(tokens(specified(c, v))->Ok_0[k])),
{
    surrounding_facts(d, c, x);
    surrounding_facts(e, c, y);
    if !is_set(d, "Service"@, "Environment"@) {
        no_words(d, c, "Service"@, "Environment"@);
    }
    if adds(d, e, "Service"@, "Environment"@, v) {
        more_items(d, e, c, "Service"@, "Environment"@, v, assignment_item());
    }
    if !is_set(d, "Service"@, "EnvironmentFile"@) {
        no_words(d, c, "Service"@, "EnvironmentFile"@);
    }
    if adds(d, e, "Service"@, "EnvironmentFile"@, v) {
        more_items(d, e, c, "Service"@, "EnvironmentFile"@, v, file_item());
    }
}

/// What each value gives stands at the value's place.
proof fn one_item_each<A>(v: Seq<Text>, f: spec_fn(Text) -> Result<Seq<A>, Text>)
    requires
        gathered(v, f) is Ok,
        forall|t: Text| #[trigger] f(t) is Ok ==> f(t)->Ok_0.len() == 1,
    ensures
        gathered(v, f)->Ok_0.len() == v.len(),
        forall|i: int|
            0 <= i < v.len() ==> f(#[trigger] v[i]) == Ok::<Seq<A>, Text>(
                seq![gathered(v, f)->Ok_0[i]],
            ),
    decreases v.len(),
{
    if v.len() > 0 {
        let init = v.drop_last();
        one_item_each(init, f);
        let a = gathered(init, f)->Ok_0;
        let b = f(v.last())->Ok_0;
        assert(b =~= seq![b[0]]);
        assert forall|i: int| 0 <= i < v.len() implies f(#[trigger] v[i]) == Ok::<Seq<A>, Text>(
            seq![gathered(v, f)->Ok_0[i]],
        ) by {
            if i < init.len() {
                assert(init[i] == v[i]);
                assert((a + b)[i] == a[i]);
            } else {
                assert((a + b)[i] == b[0]);
            }
        }
    }
}

/// The limits of resources: one for each value of `LimitNOFILE=`, of `LimitNPROC=`,
/// of `LimitCORE=` and of `LimitAS=`, in this order.
pub proof fn resource_limits_are_read(d: Document, c: Specifiers, s: ServiceSettings, i: int)
    requires
        builds_service(d, c, s),
    ensures
        ({
            let v0 = values(d, "Service"@, "LimitNOFILE"@);
            let v1 = values(d, "Service"@, "LimitNPROC"@);
            let v2 = values(d, "Service"@, "LimitCORE"@);
            let v3 = values(d, "Service"@, "LimitAS"@);
            &&& s.rlimits.len() == v0.len() + v1.len() + v2.len() + v3.len()
            &&& 0 <= i < v0.len() ==> rlimit_of(RlimitResource::NoFile, specified(c, v0[i])) == Ok::<Rlimit, Text>(s.rlimits[i]) && s.rlimits[i].resource == RlimitResource::NoFile
            &&& 0 <= i < v1.len() ==> rlimit_of(RlimitResource::NProc, specified(c, v1[i])) == Ok::<Rlimit, Text>(s.rlimits[v0.len() + i]) && s.rlimits[v0.len() + i].resource == RlimitResource::NProc
            &&& 0 <= i < v2.len() ==> rlimit_of(RlimitResource::Core, specified(c, v2[i])) == Ok::<Rlimit, Text>(s.rlimits[v0.len() + v1.len() + i]) && s.rlimits[v0.len() + v1.len() + i].resource == RlimitResource::Core
            &&& 0 <= i < v3.len() ==> rlimit_of(RlimitResource::AddressSpace, specified(c, v3[i])) == Ok::<Rlimit, Text>(s.rlimits[v0.len() + v1.len() + v2.len() + i]) && s.rlimits[v0.len() + v1.len() + v2.len() + i].resource == RlimitResource::AddressSpace
        }),
{
    rlimit_facts(d, c, s);
    let t0 = settings(d, c, "Service"@, "LimitNOFILE"@);
    let f0 = limit_item(RlimitResource::NoFile);
    one_item_each(t0, f0);
    let a0 = gathered(t0, f0)->Ok_0;
    if 0 <= i < t0.len() {
        assert(f0(t0[i]) == Ok::<Seq<Rlimit>, Text>(seq![a0[i]]));
        assert(seq![a0[i]][0] == a0[i]);
        assert(f0(t0[i])->Ok_0[0] == a0[i]);
    }
    let t1 = settings(d, c, "Service"@, "LimitNPROC"@);
    let f1 = limit_item(RlimitResource::NProc);
    one_item_each(t1, f1);
    let a1 = gathered(t1, f1)->Ok_0;
    if 0 <= i < t1.len() {
        assert(f1(t1[i]) == Ok::<Seq<Rlimit>, Text>(seq![a1[i]]));
        assert(seq![a1[i]][0] == a1[i]);
        assert(f1(t1[i])->Ok_0[0] == a1[i]);
    }
    let t2 = settings(d, c, "Service"@, "LimitCORE"@);
    let f2 = limit_item(RlimitResource::Core);
    one_item_each(t2, f2);
    let a2 = gathered(t2, f2)->Ok_0;
    if 0 <= i < t2.len() {
        assert(f2(t2[i]) == Ok::<Seq<Rlimit>, Text>(seq![a2[i]]));
        assert(seq![a2[i]][0] == a2[i]);
        assert(f2(t2[i])->Ok_0[0] == a2[i]);
    }
    let t3 = settings(d, c, "Service"@, "LimitAS"@);
    let f3 = limit_item(RlimitResource::AddressSpace);
    one_item_each(t3, f3);
    let a3 = gathered(t3, f3)->Ok_0;
    if 0 <= i < t3.len() {
        assert(f3(t3[i]) == Ok::<Seq<Rlimit>, Text>(seq![a3[i]]));
        assert(seq![a3[i]][0] == a3[i]);
        assert(f3(t3[i])->Ok_0[0] == a3[i]);
    }
}

/// When a timer elapses: one trigger for each value, each under its own name.
pub proof fn timer_triggers_are_read(d: Document, c: Specifiers, t: TimerSettings, i: int)
    requires
        builds_timer(d, c, t),
    ensures
        t.on_boot_sec.len() == values(d, "Timer"@, "OnBootSec"@).len(),
        0 <= i < t.on_boot_sec.len() ==> span_of(specified(c, values(d, "Timer"@, "OnBootSec"@)[i])) == Ok::<nat, Text>(t.on_boot_sec[i]),
        t.on_startup_sec.len() == values(d, "Timer"@, "OnStartupSec"@).len(),
        0 <= i < t.on_startup_sec.len() ==> span_of(specified(c, values(d, "Timer"@, "OnStartupSec"@)[i])) == Ok::<nat, Text>(t.on_startup_sec[i]),
        t.on_active_sec.len() == values(d, "Timer"@, "OnUnitActiveSec"@).len(),
        0 <= i < t.on_active_sec.len() ==> span_of(specified(c, values(d, "Timer"@, "OnUnitActiveSec"@)[i])) == Ok::<nat, Text>(t.on_active_sec[i]),
        t.on_inactive_sec.len() == values(d, "Timer"@, "OnUnitInactiveSec"@).len(),
        0 <= i < t.on_inactive_sec.len() ==> span_of(specified(c, values(d, "Timer"@, "OnUnitInactiveSec"@)[i])) == Ok::<nat, Text>(t.on_inactive_sec[i]),
        t.on_calendar.len() == values(d, "Timer"@, "OnCalendar"@).len(),
        0 <= i < t.on_calendar.len() ==> calendar_of(specified(c, values(d, "Timer"@, "OnCalendar"@)[i])) == Ok::<Text, Text>(t.on_calendar[i]),
{
    timer_facts(d, c, t);
    let v = settings(d, c, "Timer"@, "OnBootSec"@);
    one_item_each(v, span_item());
    if 0 <= i < v.len() {
        let a = gathered(v, span_item())->Ok_0;
        assert(span_item()(v[i]) == Ok::<Seq<nat>, Text>(seq![a[i]]));
        assert(span_item()(v[i])->Ok_0[0] == a[i]);
    }
    let v = settings(d, c, "Timer"@, "OnStartupSec"@);
    one_item_each(v, span_item());
    if 0 <= i < v.len() {
        let a = gathered(v, span_item())->Ok_0;
        assert(span_item()(v[i]) == Ok::<Seq<nat>, Text>(seq![a[i]]));
        assert(span_item()(v[i])->Ok_0[0] == a[i]);
    }
    let v = settings(d, c, "Timer"@, "OnUnitActiveSec"@);
    one_item_each(v, span_item());
    if 0 <= i < v.len() {
        let a = gathered(v, span_item())->Ok_0;
        assert(span_item()(v[i]) == Ok::<Seq<nat>, Text>(seq![a[i]]));
        assert(span_item()(v[i])->Ok_0[0] == a[i]);
    }
    let v = settings(d, c, "Timer"@, "OnUnitInactiveSec"@);
    one_item_each(v, span_item());
    if 0 <= i < v.len() {
        let a = gathered(v, span_item())->Ok_0;
        assert(span_item()(v[i]) == Ok::<Seq<nat>, Text>(seq![a[i]]));
        assert(span_item()(v[i])->Ok_0[0] == a[i]);
    }
    let v = settings(d, c, "Timer"@, "OnCalendar"@);
    one_item_each(v, calendar_item());
    if 0 <= i < v.len() {
        let a = gathered(v, calendar_item())->Ok_0;
        assert(calendar_item()(v[i]) == Ok::<Seq<Text>, Text>(seq![a[i]]));
        assert(calendar_item()(v[i])->Ok_0[0] == a[i]);
    }
}

/// What else `[Timer]` says; the accuracy is a minute where it is not set.
pub proof fn timer_settings_are_read(d: Document, c: Specifiers, t: TimerSettings)
    requires
        builds_timer(d, c, t),
    ensures
        !is_set(d, "Timer"@, "Persistent"@) ==> !t.persistent,
        is_set(d, "Timer"@, "Persistent"@) ==> bool_of(final_value(d, c, "Timer"@, "Persistent"@)) == Ok::<bool, Text>(t.persistent),
        !is_set(d, "Timer"@, "AccuracySec"@) ==> t.accuracy_sec == 60_000_000,
        is_set(d, "Timer"@, "AccuracySec"@) ==> span_of(final_value(d, c, "Timer"@, "AccuracySec"@)) == Ok::<nat, Text>(t.accuracy_sec),
        !is_set(d, "Timer"@, "RandomizedDelaySec"@) ==> t.randomized_delay_sec == 0,
        is_set(d, "Timer"@, "RandomizedDelaySec"@) ==> span_of(final_value(d, c, "Timer"@, "RandomizedDelaySec"@)) == Ok::<nat, Text>(t.randomized_delay_sec),
        !is_set(d, "Timer"@, "RemainAfterElapse"@) ==> !t.remain_after_elapse,
        is_set(d, "Timer"@, "RemainAfterElapse"@) ==> bool_of(final_value(d, c, "Timer"@, "RemainAfterElapse"@)) == Ok::<bool, Text>(t.remain_after_elapse),
        !is_set(d, "Timer"@, "Unit"@) ==> t.unit is None,
        is_set(d, "Timer"@, "Unit"@) ==> t.unit == Some(final_value(d, c, "Timer"@, "Unit"@)),
        !t.wake_system,
{
    timer_facts(d, c, t);
}

/// `ListenStream=` lists what a socket unit listens on.
pub proof fn sockets_listen_on_what_is_listed(
    d: Document,
    e: Document,
    c: Specifiers,
    x: SocketSettings,
    y: SocketSettings,
    v: Text,
)
    requires
        builds_socket(d, c, x),
        builds_socket(e, c, y),
    ensures
        !is_set(d, "Socket"@, "ListenStream"@) ==> x.listen_stream.len() == 0,
        adds(d, e, "Socket"@, "ListenStream"@, v) ==> y.listen_stream == x.listen_stream + words(
            specified(c, v),
        ),
{
    socket_facts(d, c, x);
    socket_facts(e, c, y);
    if !is_set(d, "Socket"@, "ListenStream"@) {
        no_words(d, c, "Socket"@, "ListenStream"@);
    }
    if adds(d, e, "Socket"@, "ListenStream"@, v) {
        more_words(d, e, c, "Socket"@, "ListenStream"@, v);
    }
}

/// What else `[Socket]` says.
pub proof fn socket_settings_are_read(d: Document, c: Specifiers, t: SocketSettings)
    requires
        builds_socket(d, c, t),
    ensures
        !is_set(d, "Socket"@, "Accept"@) ==> !t.accept,
        is_set(d, "Socket"@, "Accept"@) ==> bool_of(final_value(d, c, "Socket"@, "Accept"@)) == Ok::<bool, Text>(t.accept),
        !is_set(d, "Socket"@, "Service"@) ==> t.service is None,
        is_set(d, "Socket"@, "Service"@) ==> t.service == Some(final_value(d, c, "Socket"@, "Service"@)),
{
    socket_facts(d, c, t);
}

/// `[Mount]`: what is mounted, where, and how. Without `Where=` the unit's name
/// says where.
pub proof fn mount_settings_are_read(d: Document, c: Specifiers, t: MountSettings)
    requires
        builds_mount(d, c, t),
    ensures
        !is_set(d, "Mount"@, "What"@) ==> t.what is None,
        is_set(d, "Mount"@, "What"@) ==> t.what == Some(final_value(d, c, "Mount"@, "What"@)),
        !is_set(d, "Mount"@, "Type"@) ==> t.fs_type is None,
        is_set(d, "Mount"@, "Type"@) ==> t.fs_type == Some(final_value(d, c, "Mount"@, "Type"@)),
        !is_set(d, "Mount"@, "Options"@) ==> t.options is None,
        is_set(d, "Mount"@, "Options"@) ==> t.options == Some(final_value(d, c, "Mount"@, "Options"@)),
        is_set(d, "Mount"@, "Where"@) ==> t.where_ is Some && unquoted(final_value(d, c, "Mount"@, "Where"@)) == Ok::<Text, Text>(t.where_->0),
        !is_set(d, "Mount"@, "Where"@) ==> t.where_ == mount_path(c.unit_name),
{
    mount_facts(d, c, t);
}

// ---- what single values are read as ---------------------------------------------

/// A command is the words of its value. A `-` before them says that it may fail,
/// and is not part of it.
#[verifier::spinoff_prover]
#[verifier::rlimit(60)]
pub proof fn commands_are_their_words(v: Text, argv: Seq<Text>)
    requires
        v.len() > 0,
        !is_space(v[0]),
        v[0] != '-',
        tokens(v) == Ok::<Seq<Text>, Text>(argv),
        argv.len() > 0,
    ensures
        command_of(v) == Ok::<Seq<CommandLine>, Text>(
            seq![CommandLine { argv, ignore_failure: false }],
        ),
        command_of(seq!['-'] + v) == Ok::<Seq<CommandLine>, Text>(
            seq![CommandLine { argv, ignore_failure: true }],
        ),
        command_of(seq!['-', ' '] + v) == command_of(seq!['-'] + v),
{
    let a = seq!['-'] + v;
    let b = seq!['-', ' '] + v;
    let c = b.skip(1);
    word_starts_at_once(v);
    word_starts_at_once(a);
    word_starts_at_once(b);
    assert(a.skip(1) =~= v);
    assert(trimmed_start(c) == v) by {
        assert(c =~= seq![' '] + v);
        assert forall|i: int| 0 <= i < 1 implies !non_spaces()(#[trigger] c[i]) by {}
        assert(c[1] == v[0]);
        find_unique(c, non_spaces(), 1);
        assert(c.skip(1) =~= v);
    }
}

proof fn word_starts_at_once(v: Text)
    requires
        v.len() > 0,
        !is_space(v[0]),
    ensures
        trimmed_start(v) == v,
        trimmed(v).len() > 0,
{
    find_unique(v, non_spaces(), 0);
    assert(trimmed_start(v) =~= v);
    find_last_last(v, non_spaces());
    assert(non_spaces()(v[0]));
}

/// A `-` before a path says that the file may be missing, and is not part of the
/// path.
pub proof fn optional_paths_are_marked(path: Text)
    ensures
        optional_path(seq!['-'] + path) == (path, true),
        path.len() == 0 || path[0] != '-' ==> optional_path(path) == (path, false),
{
    assert((seq!['-'] + path).skip(1) =~= path);
}

/// An assignment is a name, the first `=`, and the value, which may hold more of
/// them; what has no `=` is none.
pub proof fn assignments_are_split_at_the_first_sign(
    toks: Seq<Text>,
    name: Text,
    v: Text,
)
    requires
        lacks(name, '='),
        assignments(toks) is Ok,
    ensures
        assignments(toks.push(name + seq!['='] + v)) == Ok::<Seq<(Text, Text)>, Text>(
            assignments(toks)->Ok_0.push((name, v)),
        ),
        assignments(toks.push(name)) is Err,
{
    let t = name + seq!['='] + v;
    let k = name.len() as int;
    assert forall|i: int| 0 <= i < k implies !chr('=')(#[trigger] t[i]) by {
        assert(t[i] == name[i]);
    }
    assert(t[k] == '=');
    find_unique(t, chr('='), k);
    assert(t.take(k) =~= name);
    assert(t.skip(k + 1) =~= v);
    assert(toks.push(t).drop_last() =~= toks);
    assert forall|i: int| 0 <= i < k implies !chr('=')(#[trigger] name[i]) by {}
    find_unique(name, chr('='), k);
    assert(toks.push(name).drop_last() =~= toks);
}

/// The kinds of units and their suffixes: each kind has its own.
pub proof fn kinds_have_these_suffixes(k: UnitKind, s: Text)
    ensures
        kind_suffix(k) == "service"@ <==> k == UnitKind::Service,
        kind_suffix(k) == "timer"@ <==> k == UnitKind::Timer,
        kind_suffix(k) == "target"@ <==> k == UnitKind::Target,
        kind_suffix(k) == "socket"@ <==> k == UnitKind::Socket,
        kind_suffix(k) == "device"@ <==> k == UnitKind::Device,
        kind_suffix(k) == "mount"@ <==> k == UnitKind::Mount,
        kind_of_suffix(s) == Some(k) <==> s == kind_suffix(k),
{
    reveal_strlit("service");
    reveal_strlit("timer");
    reveal_strlit("target");
    reveal_strlit("socket");
    reveal_strlit("device");
    reveal_strlit("mount");
    assert("service"@ =~= seq!['s', 'e', 'r', 'v', 'i', 'c', 'e']);
    assert("timer"@ =~= seq!['t', 'i', 'm', 'e', 'r']);
    assert("target"@ =~= seq!['t', 'a', 'r', 'g', 'e', 't']);
    assert("socket"@ =~= seq!['s', 'o', 'c', 'k', 'e', 't']);
    assert("device"@ =~= seq!['d', 'e', 'v', 'i', 'c', 'e']);
    assert("mount"@ =~= seq!['m', 'o', 'u', 'n', 't']);
}

// ---- what is held ---------------------------------------------------------------

/// A command is seen as it is held.
pub proof fn commands_are_seen_as_held(x: ExecCommand)
    ensures
        x@.argv == texts(x.argv@),
        x@.ignore_failure == x.ignore_failure,
{
}

/// So is `[Unit]`: each list under its own name.
pub proof fn unit_sections_are_seen_as_held(x: UnitConfig)
    ensures
        x@.description == x.description@,
        x@.after == texts(x.after@),
        x@.before == texts(x.before@),
        x@.requires == texts(x.requires@),
        x@.requisite == texts(x.requisite@),
        x@.wants == texts(x.wants@),
        x@.conflicts == texts(x.conflicts@),
        x@.on_failure == texts(x.on_failure@),
        x@.part_of == texts(x.part_of@),
        x@.binds_to == texts(x.binds_to@),
        x@.default_dependencies == x.default_dependencies,
        x@.documentation == texts(x.documentation@),
{
}

/// So is `[Service]`.
pub proof fn services_are_seen_as_held(x: ServiceConfig)
    ensures
        x@.service_type == x.service_type,
        x@.remain_after_exit == x.remain_after_exit,
        x@.exec_start_pre == views(x.exec_start_pre@),
        x@.exec_start == views(x.exec_start@),
        x@.exec_start_post == views(x.exec_start_post@),
        x@.exec_stop == views(x.exec_stop@),
        x@.exec_reload == views(x.exec_reload@),
        x@.restart == x.restart,
        x@.restart_sec == x.restart_sec.usec as nat,
        x@.timeout_start_sec == x.timeout_start_sec.usec as nat,
        x@.timeout_stop_sec == x.timeout_stop_sec.usec as nat,
        x@.environment == pairs_view(x.environment@),
        x@.environment_files == flagged_view(x.environment_files@),
        x@.working_directory is None <==> x.working_directory is None,
        x.working_directory is Some ==> x@.working_directory == Some({
            let (path, optional) = x.working_directory->0;
            (path@, optional)
        }),
        x@.user is None <==> x.user is None,
        x.user is Some ==> x@.user == Some(x.user->0@),
        x@.group is None <==> x.group is None,
        x.group is Some ==> x@.group == Some(x.group->0@),
        x@.nice is None <==> x.nice is None,
        x.nice is Some ==> x@.nice == Some(x.nice->0 as int),
        x@.umask == x.umask,
        x@.kill_signal is None <==> x.kill_signal is None,
        x.kill_signal is Some ==> x@.kill_signal == Some(x.kill_signal->0.raw()),
        x@.kill_mode == x.kill_mode,
        x@.send_sigkill == x.send_sigkill,
        x@.success_exit_status is None <==> x.success_exit_status is None,
        x.success_exit_status is Some ==> x@.success_exit_status == Some(x.success_exit_status->0@),
        x@.pid_file is None <==> x.pid_file is None,
        x.pid_file is Some ==> x@.pid_file == Some(x.pid_file->0@),
        x@.bus_name is None <==> x.bus_name is None,
        x.bus_name is Some ==> x@.bus_name == Some(x.bus_name->0@),
        x@.rlimits == x.rlimits@,
        x@.cgroup_limits == x.cgroup_limits,
        x@.std_output == x.std_output@,
        x@.std_error == x.std_error@,
        x@.std_input == x.std_input,
{
}

/// So is `[Timer]`.
pub proof fn timers_are_seen_as_held(x: TimerConfig)
    ensures
        x@.on_calendar == views(x.on_calendar@),
        x@.on_boot_sec == spans_view(x.on_boot_sec@),
        x@.on_startup_sec == spans_view(x.on_startup_sec@),
        x@.on_active_sec == spans_view(x.on_active_sec@),
        x@.on_inactive_sec == spans_view(x.on_inactive_sec@),
        x@.persistent == x.persistent,
        x@.accuracy_sec == x.accuracy_sec.usec as nat,
        x@.randomized_delay_sec == x.randomized_delay_sec.usec as nat,
        x@.unit is None <==> x.unit is None,
        x.unit is Some ==> x@.unit == Some(x.unit->0@),
        x@.remain_after_elapse == x.remain_after_elapse,
        x@.wake_system == x.wake_system,
{
}

/// So is `[Socket]`.
pub proof fn sockets_are_seen_as_held(x: SocketConfig)
    ensures
        x@.listen_stream == texts(x.listen_stream@),
        x@.accept == x.accept,
        x@.service is None <==> x.service is None,
        x.service is Some ==> x@.service == Some(x.service->0@),
{
}

/// So is `[Mount]`.
pub proof fn mounts_are_seen_as_held(x: MountConfig)
    ensures
        x@.what is None <==> x.what is None,
        x.what is Some ==> x@.what == Some(x.what->0@),
        x@.where_ is None <==> x.where_ is None,
        x.where_ is Some ==> x@.where_ == Some(x.where_->0@),
        x@.fs_type is None <==> x.fs_type is None,
        x.fs_type is Some ==> x@.fs_type == Some(x.fs_type->0@),
        x@.options is None <==> x.options is None,
        x.options is Some ==> x@.options == Some(x.options->0@),
{
}

/// So is a unit, section by section.
pub proof fn units_are_seen_as_held(x: UnitFile)
    ensures
        x@.path is None <==> x.path is None,
        x.path is Some ==> x@.path == Some(x.path->0@),
        x@.unit == x.unit@,
        x@.service is None <==> x.service is None,
        x.service is Some ==> x@.service == Some(x.service->0@),
        x@.timer is None <==> x.timer is None,
        x.timer is Some ==> x@.timer == Some(x.timer->0@),
        x@.socket is None <==> x.socket is None,
        x.socket is Some ==> x@.socket == Some(x.socket->0@),
        x@.mount is None <==> x.mount is None,
        x.mount is Some ==> x@.mount == Some(x.mount->0@),
        x@.install == x.install@,
{
}

/// What is refused in a section is named in the error.
pub proof fn refused_settings_are_named(d: Document, c: Specifiers, t: Text, toks: Seq<Text>)
    ensures
        service_type_of(Some(t)) is Err ==> service_type_of(Some(t)) == Err::<ServiceType, Text>(
            "invalid service Type `"@ + lower(t) + "`"@,
        ),
        restart_of(Some(t)) is Err ==> restart_of(Some(t)) == Err::<RestartPolicy, Text>(
            "invalid Restart policy `"@ + lower(t) + "`"@,
        ),
        kill_mode_of(Some(t)) is Err ==> kill_mode_of(Some(t)) == Err::<KillMode, Text>(
            "unsupported KillMode `"@ + lower(t) + "`"@,
        ),
        stdin_of(Some(t)) is Err ==> stdin_of(Some(t)) == Err::<bool, Text>(
            "unsupported StandardInput `"@ + lower(t) + "`"@,
        ),
        nice_of(d, c) is Err ==> nice_of(d, c) == Err::<Option<int>, Text>(
            "invalid Nice `"@ + value(d, "Service"@, "Nice"@)->0 + "`"@,
        ),
        kill_signal_of(d, c) is Err ==> kill_signal_of(d, c) == Err::<Option<int>, Text>(
            "invalid KillSignal `"@ + value(d, "Service"@, "KillSignal"@)->0 + "`"@,
        ),
        tasks_max_of(d, c) is Err ==> tasks_max_of(d, c) == Err::<Option<u64>, Text>(
            "invalid TasksMax `"@ + value(d, "Service"@, "TasksMax"@)->0 + "`"@,
        ),
        cpu_weight_of(d, c) is Err ==> ({
            let v = value(d, "Service"@, "CPUWeight"@)->0;
            let n = number(trimmed(specified(c, v)), 10, 0xffff_ffff);
            &&& n is None ==> cpu_weight_of(d, c) == Err::<Option<u32>, Text>(
                "invalid CPUWeight `"@ + v + "`"@,
            )
            &&& n is Some ==> (n->0 == 0 || n->0 > 10_000) && cpu_weight_of(d, c) == Err::<
                Option<u32>,
                Text,
            >("CPUWeight out of range 1..=10000: `"@ + v + "`"@)
        }),
        assignments(toks) is Ok && !occurs(t, chr('=')) ==> assignments(toks.push(t)) == Err::<
            Seq<(Text, Text)>,
            Text,
        >("Environment assignment `"@ + t + "` lacks `=`"@),
        unit_of(d, c) is Ok && kind_of_name(c.unit_name) is None ==> file_of(d, c) == Err::<
            FileSettings,
            Text,
        >("unsupported unit type in name `"@ + c.unit_name + "`"@),
{
    assert(toks.push(t).drop_last() =~= toks);
}

} // verus!
