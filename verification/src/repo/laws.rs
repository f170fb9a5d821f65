//! What unit files hold, and what the repository does with them, line by line and file
//! by file.

use vstd::prelude::*;

use crate::repo::domain::{
    definition_of, document_lines, document_of, document_text, header_line, is_key, line_of, read,
    section_lines, setting_line, terminated, type_of_name, type_of_suffix, type_suffix, Definition,
    Document, Entry, Line, Section, UnitDefinition, UnitDocument, UnitEntry, UnitSection, UnitType,
};
use crate::repo::error::Fault;
use crate::repo::store::{
    changed, create_result, delete_result, gathered, held, mutated, name_fault, read_result,
    update_result, write_result, Change, FoundUnit, Step,
};
use crate::text::{
    chr, find, find_first, find_last_unique, find_unique, is_alpha, is_digit, is_space, is_trimmed,
    lacks, occurs, trimmed, trimmed_is_the_rest, trimmed_start, Text,
};

verus! {

// ---- types ----------------------------------------------------------------------

/// The types of units and their suffixes: each has its own.
pub proof fn types_have_these_suffixes(t: UnitType, s: Text)
    ensures
        type_suffix(t) == "service"@ <==> t == UnitType::Service,
        type_suffix(t) == "timer"@ <==> t == UnitType::Timer,
        type_suffix(t) == "target"@ <==> t == UnitType::Target,
        type_suffix(t) == "socket"@ <==> t == UnitType::Socket,
        type_suffix(t) == "mount"@ <==> t == UnitType::Mount,
        type_suffix(t) == "device"@ <==> t == UnitType::Device,
        type_of_suffix(s) == Some(UnitType::Service) <==> s == "service"@,
        type_of_suffix(s) == Some(UnitType::Timer) <==> s == "timer"@,
        type_of_suffix(s) == Some(UnitType::Target) <==> s == "target"@,
        type_of_suffix(s) == Some(UnitType::Socket) <==> s == "socket"@,
        type_of_suffix(s) == Some(UnitType::Mount) <==> s == "mount"@,
        type_of_suffix(s) == Some(UnitType::Device) <==> s == "device"@,
{
    reveal_strlit("service");
    reveal_strlit("timer");
    reveal_strlit("target");
    reveal_strlit("socket");
    reveal_strlit("mount");
    reveal_strlit("device");
    assert("service"@.len() == 7 && "service"@[0] == 's' && "service"@[1] == 'e' && "service"@[2] == 'r');
    assert("timer"@.len() == 5 && "timer"@[0] == 't' && "timer"@[1] == 'i' && "timer"@[2] == 'm');
    assert("target"@.len() == 6 && "target"@[0] == 't' && "target"@[1] == 'a' && "target"@[2] == 'r');
    assert("socket"@.len() == 6 && "socket"@[0] == 's' && "socket"@[1] == 'o' && "socket"@[2] == 'c');
    assert("mount"@.len() == 5 && "mount"@[0] == 'm' && "mount"@[1] == 'o' && "mount"@[2] == 'u');
    assert("device"@.len() == 6 && "device"@[0] == 'd' && "device"@[1] == 'e' && "device"@[2] == 'v');
}

/// A unit's type is what its name says behind the last point.
pub proof fn the_last_suffix_is_the_type(stem: Text, suffix: Text)
    requires
        lacks(suffix, '.'),
    ensures
        type_of_name(stem + seq!['.'] + suffix) == type_of_suffix(suffix),
        type_of_name(suffix) is None,
{
    let s = stem + seq!['.'] + suffix;
    let k = (stem.len() + 1) as int;
    assert forall|i: int| k <= i < s.len() implies !chr('.')(#[trigger] s[i]) by {
        assert(s[i] == suffix[i - k]);
    }
    assert(s[k - 1] == '.');
    find_last_unique(s, chr('.'), k);
    assert(s.skip(k) =~= suffix);
    assert forall|i: int| 0 <= i < suffix.len() implies !chr('.')(#[trigger] suffix[i]) by {}
    find_last_unique(suffix, chr('.'), 0);
}

// ---- lines ----------------------------------------------------------------------

proof fn begins_with(c: char, rest: Text)
    requires
        !is_space(c),
    ensures
        trimmed(seq![c] + rest).len() > 0,
        trimmed(seq![c] + rest)[0] == c,
{
    let s = seq![c] + rest;
    let p = crate::text::non_spaces();
    find_unique(s, p, 0);
    assert(trimmed_start(s) =~= s);
    crate::text::find_last_last(s, p);
    assert(p(s[0]));
}

/// A comment and an empty line mean nothing.
pub proof fn comments_mean_nothing(rest: Text)
    ensures
        line_of(seq!['#'] + rest) == Line::Nothing,
        line_of(seq![';'] + rest) == Line::Nothing,
        line_of(seq![]) == Line::Nothing,
{
    begins_with('#', rest);
    begins_with(';', rest);
    let e = Seq::<char>::empty();
    crate::text::find_first(e, crate::text::non_spaces());
    assert(trimmed_start(e) =~= e);
    crate::text::find_last_last(e, crate::text::non_spaces());
    assert(trimmed(e) =~= e);
}

/// A section's name stands in brackets. One that is not closed is an error.
pub proof fn headers_stand_in_brackets(name: Text)
    requires
        name.len() > 0,
        is_trimmed(name),
        lacks(name, ']'),
    ensures
        line_of(seq!['['] + name + seq![']']) == Line::Header(name),
        line_of(seq!['['] + name) is Bad,
{
    let s = seq!['['] + name + seq![']'];
    let k = name.len() as int;
    let p = chr(']');
    assert(s[0] == '[' && s.last() == ']');
    trimmed_is_the_rest(seq![], s, seq![]);
    assert(seq![] + s + seq![] =~= s);
    let t = s.skip(1);
    assert forall|i: int| 0 <= i < k implies !p(#[trigger] t[i]) by {
        assert(t[i] == name[i]);
    }
    assert(t[k] == ']');
    find_unique(t, p, k);
    assert(t.take(k) =~= name);
    let e = t.skip(k + 1);
    assert(e =~= seq![]);
    comments_mean_nothing(seq![]);
    assert(trimmed(e).len() == 0) by {
        let n = Seq::<char>::empty();
        crate::text::find_first(n, crate::text::non_spaces());
        assert(trimmed_start(n) =~= n);
        crate::text::find_last_last(n, crate::text::non_spaces());
    }
    trimmed_is_the_rest(seq![], name, seq![]);
    assert(seq![] + name + seq![] =~= name);
    let open = seq!['['] + name;
    assert(open[0] == '[' && open.last() == name.last());
    trimmed_is_the_rest(seq![], open, seq![]);
    assert(seq![] + open + seq![] =~= open);
    assert(open.skip(1) =~= name);
    assert forall|i: int| 0 <= i < k implies !p(#[trigger] name[i]) by {}
    find_unique(name, p, k);
}

/// A setting is a key, the first `=`, and the value, which may hold more of them. A line
/// without one is an error.
pub proof fn settings_are_split_at_the_first_sign(key: Text, value: Text)
    requires
        is_key(key),
        value.len() == 0 || !is_space(value.last()),
        value.len() == 0 || !is_space(value[0]),
    ensures
        line_of(key + seq!['='] + value) == Line::Setting(key, value),
        line_of(key) is Bad,
{
    let s = key + seq!['='] + value;
    let k = key.len() as int;
    let p = chr('=');
    assert(crate::repo::domain::is_key_char(key[0]));
    assert(crate::repo::domain::is_key_char(key[k - 1]));
    assert(s[0] == key[0]);
    assert(s.last() == if value.len() == 0 {
        '='
    } else {
        value.last()
    });
    trimmed_is_the_rest(seq![], s, seq![]);
    assert(seq![] + s + seq![] =~= s);
    assert forall|i: int| 0 <= i < k implies !p(#[trigger] s[i]) by {
        assert(s[i] == key[i]);
        assert(crate::repo::domain::is_key_char(key[i]));
    }
    assert(s[k] == '=');
    find_unique(s, p, k);
    assert(s.take(k) =~= key);
    assert(s.skip(k + 1) =~= value);
    trimmed_is_the_rest(seq![], key, seq![]);
    assert(seq![] + key + seq![] =~= key);
    find_unique(value, crate::text::non_spaces(), 0);
    assert(trimmed_start(value) =~= value);
    assert forall|i: int| 0 <= i < k implies !p(#[trigger] key[i]) by {
        assert(crate::repo::domain::is_key_char(key[i]));
    }
    find_unique(key, p, k);
}

// ---- documents ------------------------------------------------------------------

/// A header opens a section, a setting goes into the section that was opened last, and
/// what means nothing changes nothing. A setting before any header is an error, and the
/// first error is the one that is told, with its line.
pub proof fn lines_are_read_in_order(ls: Seq<Text>, l: Text, d: Document)
    requires
        read(ls) == Ok::<Document, (nat, Text)>(d),
    ensures
        line_of(l) is Nothing ==> read(ls.push(l)) == Ok::<Document, (nat, Text)>(d),
        line_of(l) is Header ==> read(ls.push(l)) == Ok::<Document, (nat, Text)>(
            d.push(Section { name: line_of(l)->Header_0, entries: seq![] }),
        ),
        line_of(l) is Setting && d.len() > 0 ==> read(ls.push(l)) == Ok::<Document, (nat, Text)>(
            d.drop_last().push(
                Section {
                    name: d.last().name,
                    entries: d.last().entries.push(
                        Entry { key: line_of(l)->Setting_0, value: line_of(l)->Setting_1 },
                    ),
                },
            ),
        ),
        line_of(l) is Setting && d.len() == 0 ==> read(ls.push(l)) is Err && read(
            ls.push(l),
        )->Err_0.0 == ls.len() + 1,
        line_of(l) is Bad ==> read(ls.push(l)) == Err::<Document, (nat, Text)>(
            (ls.len() + 1, line_of(l)->Bad_0),
        ),
        read(seq![]) == Ok::<Document, (nat, Text)>(seq![]),
{
    assert(ls.push(l).drop_last() =~= ls);
    if line_of(l) is Setting && d.len() > 0 {
        let e = Entry { key: line_of(l)->Setting_0, value: line_of(l)->Setting_1 };
        let x = Section { name: d.last().name, entries: d.last().entries.push(e) };
        assert(d.update(d.len() - 1, x) =~= d.drop_last().push(x));
    }
}

/// A definition has the type that its name says, and the document of its text; without a
/// type that is known there is none.
pub proof fn definitions_are_typed_by_name(name: Text, text: Text)
    ensures
        type_of_name(name) is None ==> definition_of(name, text) is Err,
        definition_of(name, text) is Ok <==> type_of_name(name) is Some && document_of(text) is Ok,
        definition_of(name, text) is Ok ==> ({
            let u = definition_of(name, text)->Ok_0;
            u.name == name && type_of_name(name) == Some(u.kind) && document_of(text) == Ok::<
                Document,
                Fault,
            >(u.document)
        }),
{
}

/// Files, sections and entries are seen as they are.
pub proof fn documents_are_what_they_hold(
    e: UnitEntry,
    s: UnitSection,
    d: UnitDocument,
    u: UnitDefinition,
    i: int,
)
    ensures
        e@.key == e.key@ && e@.value == e.value@,
        s@.name == s.name@ && s@.entries.len() == s.entries@.len(),
        0 <= i < s.entries@.len() ==> s@.entries[i] == s.entries@[i]@,
        d@.len() == d.sections@.len(),
        0 <= i < d.sections@.len() ==> d@[i] == d.sections@[i]@,
        u@.name == u.name@ && u@.kind == u.kind && u@.document == u.document@,
{
}

// ---- the repository -------------------------------------------------------------

/// A name is that of a unit file where it is a plain file name with a suffix that is
/// known.
pub proof fn plain_names_are_accepted(name: Text)
    ensures
        name_fault(name) is None <==> name.len() > 0 && lacks(name, '/') && lacks(name, '\\') && name
            != "."@ && name != ".."@ && type_of_name(name) is Some,
{
    has_no(name, '/');
    has_no(name, '\\');
}

proof fn has_no(s: Text, c: char)
    ensures
        occurs(s, chr(c)) <==> !lacks(s, c),
{
    find_first(s, chr(c));
    let k = find(s, chr(c)) as int;
    if occurs(s, chr(c)) {
        assert(s[k] == c);
    } else {
        assert forall|i: int| 0 <= i < s.len() implies #[trigger] s[i] != c by {
            assert(!chr(c)(s[i]));
        }
    }
}

/// Writing puts the text of the document under the unit's name; creating does so where
/// there is no such unit, and updating where there is one.
pub proof fn units_are_written_under_their_names(
    u: UnitDefinition,
    text: Text,
    files: Map<Text, Text>,
)
    requires
        name_fault(u.name@) is None,
    ensures
        write_result(u@) == Ok::<Change, Fault>(
            Change::Write(u.name@, document_text(u.document@)),
        ),
        create_result(u@, None) == write_result(u@),
        create_result(u@, Some(text)) is Err,
        update_result(u@, None) == Err::<Change, Fault>(Fault::NotFound(u.name@)),
        definition_of(u.name@, text) is Ok ==> update_result(u@, Some(text)) == write_result(u@),
        definition_of(u.name@, text) is Ok ==> create_result(u@, Some(text)) == Err::<
            Change,
            Fault,
        >(Fault::AlreadyExists(u.name@)),
        delete_result(u.name@) == Ok::<Change, Fault>(Change::Delete(u.name@)),
        held(changed(files, write_result(u@)->Ok_0), u.name@) == Some(
            document_text(u.document@),
        ),
        held(changed(files, delete_result(u.name@)->Ok_0), u.name@) is None,
{
}

/// What a change gives back is written, under the same name; nothing given back removes
/// the unit; another name is refused.
pub proof fn changes_keep_the_name(name: Text, u: UnitDefinition)
    ensures
        mutated(name, None) == Ok::<Change, Fault>(Change::Delete(name)),
        u.name@ == name ==> mutated(name, Some(u@)) == Ok::<Change, Fault>(
            Change::Write(name, document_text(u.document@)),
        ),
        u.name@ != name ==> mutated(name, Some(u@)) is Err,
{
}

/// Steps are seen as they are.
pub proof fn steps_are_what_they_hold(name: String, text: String)
    ensures
        (Step::Write { name, text })@ == Change::Write(name@, text@),
        (Step::Delete { name })@ == Change::Delete(name@),
{
}

/// A unit that is read is that of the first root that has it; one that none has is none.
pub proof fn units_are_read_from_the_first_root(name: Text, text: Text, rest: Seq<Option<Text>>)
    requires
        name_fault(name) is None,
    ensures
        definition_of(name, text) is Ok ==> read_result(name, seq![Some(text)] + rest)->Ok_0 == Some(
            definition_of(name, text)->Ok_0,
        ),
        read_result(name, seq![None] + rest) == read_result(name, rest),
        read_result(name, seq![])->Ok_0 is None,
        read_result(name, seq![]) is Ok,
{
    let a = seq![Some(text)] + rest;
    assert(a[0] == Some(text));
    let b = seq![None::<Text>] + rest;
    assert(b[0] == None::<Text>);
    assert(b.skip(1) =~= rest);
}

/// Of files of one name the first counts; a file that was gone when it was read is passed
/// over; any other one is listed.
pub proof fn listed_units_are_gathered(
    files: Seq<(Text, Option<Text>)>,
    name: Text,
    text: Text,
)
    requires
        gathered(files) is Ok,
    ensures
        (exists|i: int| 0 <= i < files.len() && (#[trigger] files[i]).0 == name) ==> gathered(
            files.push((name, Some(text))),
        ) == gathered(files),
        gathered(files.push((name, None))) == gathered(files),
        !(exists|i: int| 0 <= i < files.len() && (#[trigger] files[i]).0 == name)
            && definition_of(name, text) is Ok ==> gathered(files.push((name, Some(text)))) == Ok::<
            Seq<crate::repo::domain::Definition>,
            Fault,
        >(gathered(files)->Ok_0.push(definition_of(name, text)->Ok_0)),
{
    let a = files.push((name, Some(text)));
    let b = files.push((name, None));
    assert(a.drop_last() =~= files);
    assert(b.drop_last() =~= files);
    if exists|i: int| 0 <= i < files.len() && (#[trigger] files[i]).0 == name {
        let i = choose|i: int| 0 <= i < files.len() && (#[trigger] files[i]).0 == name;
        assert(a[i].0 == a.last().0);
    }
    if crate::repo::store::shadowed(a) {
        let i = choose|i: int| 0 <= i < a.len() - 1 && (#[trigger] a[i]).0 == a.last().0;
        assert(files[i].0 == name);
    }
}

/// A line more is the text with it and the end of a line behind.
proof fn a_line_more(ls: Seq<Text>, l: Text)
    ensures
        terminated(ls.push(l)) == terminated(ls) + l + seq!['\n'],
{
    assert(ls.push(l).drop_last() =~= ls);
}

/// A document is written section by section. The name of each stands in brackets on a line
/// of its own, and an empty line stands between two sections.
pub proof fn sections_are_written_one_by_one(d: Document, name: Text)
    ensures
        document_text(seq![]).len() == 0,
        document_text(seq![Section { name, entries: seq![] }]) == seq!['['] + name + seq![']', '\n'],
        d.len() > 0 ==> document_text(d.push(Section { name, entries: seq![] })) == document_text(d)
            + seq!['\n'] + (seq!['['] + name + seq![']', '\n']),
{
    let bare = Section { name, entries: Seq::<Entry>::empty() };
    let h = header_line(name);
    let empty = Seq::<Text>::empty();
    let blank = Seq::<char>::empty();
    assert(section_lines(bare) =~= seq![h]);
    assert(document_lines(seq![]) =~= empty);
    assert(h + seq!['\n'] =~= seq!['['] + name + seq![']', '\n']);
    let one = seq![bare];
    assert(one.drop_last() =~= seq![]);
    assert(document_lines(one) =~= empty.push(h));
    a_line_more(empty, h);
    assert(terminated(empty) =~= blank);
    assert(blank + h + seq!['\n'] =~= h + seq!['\n']);
    if d.len() > 0 {
        let f = d.push(bare);
        assert(f.drop_last() =~= d);
        let ls = document_lines(d);
        assert(document_lines(f) =~= ls.push(blank).push(h));
        a_line_more(ls.push(blank), h);
        a_line_more(ls, blank);
        let t = terminated(ls);
        assert(t + blank + seq!['\n'] =~= t + seq!['\n']);
        assert((t + seq!['\n']) + h + seq!['\n'] =~= (t + seq!['\n']) + (h + seq!['\n']));
    }
}

/// A setting more in the last section is written on a line of its own behind the others,
/// with `=` between key and value and nothing else.
pub proof fn settings_are_written_one_by_one(d: Document, name: Text, v: Seq<Entry>, e: Entry)
    ensures
        document_text(d.push(Section { name, entries: v.push(e) })) == document_text(
            d.push(Section { name, entries: v }),
        ) + (e.key + seq!['='] + e.value) + seq!['\n'],
{
    let a = d.push(Section { name, entries: v });
    let b = d.push(Section { name, entries: v.push(e) });
    assert(a.drop_last() =~= d);
    assert(b.drop_last() =~= d);
    let l = setting_line(e);
    assert(document_lines(b) =~= document_lines(a).push(l));
    a_line_more(document_lines(a), l);
}

/// The files that were found are seen as they are.
pub proof fn found_units_are_what_they_hold(f: FoundUnit)
    ensures
        f.text is Some ==> f@ == (f.name@, Some(f.text->0@)),
        f.text is None ==> f@ == (f.name@, None::<Text>),
{
}

/// What is wrong with a line is said of it.
pub proof fn bad_lines_are_named(raw: Text, ls: Seq<Text>)
    ensures
        ({
            let t = trimmed(raw);
            &&& t.len() > 0 && t[0] == '[' && !occurs(t.skip(1), chr(']')) ==> line_of(raw)
                == Line::Bad("section header missing closing `]`"@)
            &&& t.len() > 0 && t[0] == '[' && occurs(t.skip(1), chr(']')) && line_of(raw) is Bad
                ==> line_of(raw) == Line::Bad("invalid section header `"@ + t + "`"@)
            &&& t.len() > 0 && t[0] != '#' && t[0] != ';' && t[0] != '[' && !occurs(t, chr('='))
                ==> line_of(raw) == Line::Bad("invalid line `"@ + t + "`"@)
            &&& t.len() > 0 && t[0] != '[' && occurs(t, chr('=')) && line_of(raw) is Bad
                ==> line_of(raw) == Line::Bad(
                "invalid key `"@ + trimmed(t.take(find(t, chr('=')) as int)) + "`"@,
            )
        }),
        read(ls) is Ok && line_of(raw) is Bad ==> read(ls.push(raw)) == Err::<
            Document,
            (nat, Text),
        >((ls.len() + 1, line_of(raw)->Bad_0)),
        read(ls) is Ok && read(ls)->Ok_0.len() == 0 && line_of(raw) is Setting ==> read(
            ls.push(raw),
        ) == Err::<Document, (nat, Text)>(
            (
                ls.len() + 1,
                "`"@ + line_of(raw)->Setting_0 + "=` appears before any [Section] header"@,
            ),
        ),
        read(ls) is Err ==> read(ls.push(raw)) == read(ls),
{
    assert(ls.push(raw).drop_last() =~= ls);
    let t = trimmed(raw);
    if t.len() > 0 {
        find_first(t, chr('='));
        find_first(t.skip(1), chr(']'));
    }
}

/// A key is made of letters, digits, and the characters `_`, `-` and `.`.
pub proof fn keys_are_made_of(c: char)
    ensures
        is_key(seq![c]) <==> is_alpha(c) || is_digit(c) || c == '_' || c == '-' || c == '.',
{
    let s = seq![c];
    assert(s[0] == c);
}

/// A name that is refused is named in the error.
pub proof fn refused_names_are_named(name: Text, text: Text, u: Definition)
    ensures
        name.len() == 0 || occurs(name, chr('/')) || occurs(name, chr('\\')) || name == "."@ || name
            == ".."@ <==> name_fault(name) == Some(
            Fault::InvalidName("unit name `"@ + name + "` is not a plain unit file name"@),
        ),
        type_of_name(name) is None ==> definition_of(name, text) == Err::<Definition, Fault>(
            Fault::InvalidName("unit name `"@ + name + "` has no recognized unit suffix"@),
        ),
        name_fault(name) is Some ==> name_fault(name) == Some(
            Fault::InvalidName("unit name `"@ + name + "` is not a plain unit file name"@),
        ) || name_fault(name) == Some(
            Fault::InvalidName("unit name `"@ + name + "` has no recognized unit suffix"@),
        ),
        u.name != name ==> mutated(name, Some(u)) == Err::<Change, Fault>(
            Fault::InvalidName("mutate closure changed the unit name"@),
        ),
{
    let a = "unit name `"@ + name + "` is not a plain unit file name"@;
    let b = "unit name `"@ + name + "` has no recognized unit suffix"@;
    reveal_strlit("` is not a plain unit file name");
    reveal_strlit("` has no recognized unit suffix");
    let i = ("unit name `"@ + name).len() as int;
    assert(a[i + 2] == 'i');
    assert(b[i + 2] == 'h');
    assert(a != b);
}

} // verus!
