//! Typed unit values and a small systemd-style text codec.

use vstd::prelude::*;
use vstd::string::*;

use crate::repo::error::{outcome, Error, Fault};
use crate::text::{
    alpha, cat3, chars, chr, cut, cut_at, cut_lacks, cut_last, digit, find, find_first, find_unique,
    is_alpha, is_digit, is_trimmed, lacks, lines, no_cr, owned, rsplit_once, same, split_once,
    starts_with_char, strip_char, text_lines, texts, trim, trim_start, trimmed, trimmed_is_trimmed,
    trimmed_keeps, trimmed_start, Text,
};

verus! {

/// The type of a unit: the suffix after the last `.` of its name.
#[derive(Debug, Clone, Copy, PartialEq, Eq, Hash, Structural)]
pub enum UnitType {
    Service,
    Timer,
    Target,
    Socket,
    Mount,
    Device,
}

/// The suffix of a unit type.
pub open spec fn type_suffix(t: UnitType) -> Text {
    match t {
        UnitType::Service => "service"@,
        UnitType::Timer => "timer"@,
        UnitType::Target => "target"@,
        UnitType::Socket => "socket"@,
        UnitType::Mount => "mount"@,
        UnitType::Device => "device"@,
    }
}

/// The unit type with the given suffix.
pub open spec fn type_of_suffix(s: Text) -> Option<UnitType> {
    if s == "service"@ {
        Some(UnitType::Service)
    } else if s == "timer"@ {
        Some(UnitType::Timer)
    } else if s == "target"@ {
        Some(UnitType::Target)
    } else if s == "socket"@ {
        Some(UnitType::Socket)
    } else if s == "mount"@ {
        Some(UnitType::Mount)
    } else if s == "device"@ {
        Some(UnitType::Device)
    } else {
        None
    }
}

/// The type that a unit name carries.
pub open spec fn type_of_name(name: Text) -> Option<UnitType> {
    match cut_last(name, '.') {
        Some((_, suffix)) => type_of_suffix(suffix),
        None => None,
    }
}

/// Every type is found again by its suffix.
pub proof fn suffix_round_trip(t: UnitType)
    ensures
        type_of_suffix(type_suffix(t)) == Some(t),
{
    reveal_strlit("service");
    reveal_strlit("timer");
    reveal_strlit("target");
    reveal_strlit("socket");
    reveal_strlit("mount");
    reveal_strlit("device");
    assert("service"@[0] == 's');
    assert("timer"@[1] == 'i');
    assert("target"@[1] == 'a');
    assert("socket"@[1] == 'o');
    assert("service"@[1] == 'e');
    assert("mount"@[0] == 'm');
    assert("device"@[0] == 'd');
}

impl UnitType {
    pub const ALL: [UnitType; 6] = [
        UnitType::Service,
        UnitType::Timer,
        UnitType::Target,
        UnitType::Socket,
        UnitType::Mount,
        UnitType::Device,
    ];

    /// The file-name suffix, without the leading `.`.
    pub fn suffix(self) -> (r: &'static str)
        ensures
            r@ == type_suffix(self),
    {
        match self {
            UnitType::Service => "service",
            UnitType::Timer => "timer",
            UnitType::Target => "target",
            UnitType::Socket => "socket",
            UnitType::Mount => "mount",
            UnitType::Device => "device",
        }
    }

    /// The suffix, as a string.
    pub fn as_str(self) -> (r: &'static str)
        ensures
            r@ == type_suffix(self),
    {
        self.suffix()
    }

    /// The type with the given suffix.
    pub fn from_suffix(value: &str) -> (r: Option<UnitType>)
        ensures
            r == type_of_suffix(value@),
    {
        if same(value, "service") {
            Some(UnitType::Service)
        } else if same(value, "timer") {
            Some(UnitType::Timer)
        } else if same(value, "target") {
            Some(UnitType::Target)
        } else if same(value, "socket") {
            Some(UnitType::Socket)
        } else if same(value, "mount") {
            Some(UnitType::Mount)
        } else if same(value, "device") {
            Some(UnitType::Device)
        } else {
            None
        }
    }

    /// The type that a unit name carries.
    pub fn from_unit_name(name: &str) -> (r: Option<UnitType>)
        ensures
            r == type_of_name(name@),
    {
        match rsplit_once(name, '.') {
            Some((_, suffix)) => UnitType::from_suffix(suffix),
            None => None,
        }
    }
}

// ---- documents ------------------------------------------------------------------

/// One `Key=Value` line.
#[derive(Debug, Clone, PartialEq, Eq)]
pub struct UnitEntry {
    pub key: String,
    pub value: String,
}

/// One section with its entries in order.
#[derive(Debug, Clone, PartialEq, Eq)]
pub struct UnitSection {
    pub name: String,
    pub entries: Vec<UnitEntry>,
}

/// A unit file: its sections in order.
#[derive(Debug, Clone, PartialEq, Eq)]
pub struct UnitDocument {
    pub sections: Vec<UnitSection>,
}

/// An entry, as specifications see it.
#[verifier::ext_equal]
pub ghost struct Entry {
    pub key: Text,
    pub value: Text,
}

/// A section, as specifications see it.
#[verifier::ext_equal]
pub ghost struct Section {
    pub name: Text,
    pub entries: Seq<Entry>,
}

/// A document, as specifications see it.
pub type Document = Seq<Section>;

impl View for UnitEntry {
    type V = Entry;

    open spec fn view(&self) -> Entry {
        Entry { key: self.key@, value: self.value@ }
    }
}

pub open spec fn entries_view(v: Seq<UnitEntry>) -> Seq<Entry> {
    Seq::new(v.len(), |i: int| v[i]@)
}

impl View for UnitSection {
    type V = Section;

    open spec fn view(&self) -> Section {
        Section { name: self.name@, entries: entries_view(self.entries@) }
    }
}

pub open spec fn sections_view(v: Seq<UnitSection>) -> Document {
    Seq::new(v.len(), |i: int| v[i]@)
}

impl View for UnitDocument {
    type V = Document;

    open spec fn view(&self) -> Document {
        sections_view(self.sections@)
    }
}

// ---- reading --------------------------------------------------------------------

/// What one line of a unit file is.
pub ghost enum Line {
    Nothing,
    Header(Text),
    Setting(Text, Text),
    Bad(Text),
}

pub open spec fn is_key_char(c: char) -> bool {
    is_alpha(c) || is_digit(c) || c == '_' || c == '-' || c == '.'
}

/// A key: one or more letters, digits, `_`, `-` and `.`.
pub open spec fn is_key(s: Text) -> bool {
    s.len() > 0 && forall|i: int| 0 <= i < s.len() ==> is_key_char(#[trigger] s[i])
}

/// What a line is. White space around it, around a section's name and around
/// the `=` does not count.
pub open spec fn line_of(raw: Text) -> Line {
    let t = trimmed(raw);
    if t.len() == 0 || t[0] == '#' || t[0] == ';' {
        Line::Nothing
    } else if t[0] == '[' {
        match cut(t.skip(1), ']') {
            None => Line::Bad("section header missing closing `]`"@),
            Some((name, rest)) => if trimmed(name).len() == 0 || trimmed(rest).len() != 0 {
                Line::Bad("invalid section header `"@ + t + "`"@)
            } else {
                Line::Header(trimmed(name))
            },
        }
    } else {
        match cut(t, '=') {
            None => Line::Bad("invalid line `"@ + t + "`"@),
            Some((key, value)) => if !is_key(trimmed(key)) {
                Line::Bad("invalid key `"@ + trimmed(key) + "`"@)
            } else {
                Line::Setting(trimmed(key), trimmed_start(value))
            },
        }
    }
}

/// The document with one more setting in its last section.
pub open spec fn with_setting(d: Document, key: Text, value: Text) -> Document {
    let s = d.last();
    d.update(
        d.len() - 1,
        Section { name: s.name, entries: s.entries.push(Entry { key, value }) },
    )
}

/// The document that some lines make, or the number and the message of the
/// first line that is wrong.
pub open spec fn read(ls: Seq<Text>) -> Result<Document, (nat, Text)>
    decreases ls.len(),
{
    if ls.len() == 0 {
        Ok(seq![])
    } else {
        match read(ls.drop_last()) {
            Err(e) => Err(e),
            Ok(d) => match line_of(ls.last()) {
                Line::Nothing => Ok(d),
                Line::Header(name) => Ok(d.push(Section { name, entries: seq![] })),
                Line::Setting(key, value) => if d.len() == 0 {
                    Err((ls.len(), "`"@ + key + "=` appears before any [Section] header"@))
                } else {
                    Ok(with_setting(d, key, value))
                },
                Line::Bad(m) => Err((ls.len(), m)),
            },
        }
    }
}

/// The document that a text writes.
pub open spec fn document_of(text: Text) -> Result<Document, Fault> {
    match read(text_lines(text)) {
        Ok(d) => Ok(d),
        Err((line, message)) => Err(Fault::Parse(line, message)),
    }
}

/// The lines of a document: a section's header and settings, an empty line
/// between two sections.
pub open spec fn document_lines(d: Document) -> Seq<Text>
    decreases d.len(),
{
    if d.len() == 0 {
        seq![]
    } else {
        document_lines(d.drop_last()) + gap(d) + section_lines(d.last())
    }
}

pub open spec fn gap(d: Document) -> Seq<Text> {
    if d.len() > 1 {
        seq![seq![]]
    } else {
        seq![]
    }
}

pub open spec fn header_line(name: Text) -> Text {
    seq!['['] + name + seq![']']
}

pub open spec fn setting_line(e: Entry) -> Text {
    e.key + seq!['='] + e.value
}

pub open spec fn section_lines(s: Section) -> Seq<Text> {
    seq![header_line(s.name)] + setting_lines(s.entries)
}

pub open spec fn setting_lines(v: Seq<Entry>) -> Seq<Text> {
    Seq::new(v.len(), |i: int| setting_line(v[i]))
}

/// The lines, each ended by a line feed.
pub open spec fn terminated(ls: Seq<Text>) -> Text
    decreases ls.len(),
{
    if ls.len() == 0 {
        seq![]
    } else {
        terminated(ls.drop_last()) + ls.last() + seq!['\n']
    }
}

/// The text of a document.
pub open spec fn document_text(d: Document) -> Text {
    terminated(document_lines(d))
}

/// Once a line is wrong, the lines after it do not matter.
proof fn read_error_stays(ls: Seq<Text>, i: int)
    requires
        0 <= i <= ls.len(),
        read(ls.take(i)) is Err,
    ensures
        read(ls) == read(ls.take(i)),
    decreases ls.len(),
{
    if i == ls.len() {
        assert(ls.take(i) =~= ls);
    } else {
        assert(ls.drop_last().take(i) =~= ls.take(i));
        read_error_stays(ls.drop_last(), i);
    }
}

/// One line of a unit file.
enum RawLine {
    Nothing,
    Header(String),
    Setting(String, String),
    Bad(String),
}

impl View for RawLine {
    type V = Line;

    closed spec fn view(&self) -> Line {
        match self {
            RawLine::Nothing => Line::Nothing,
            RawLine::Header(n) => Line::Header(n@),
            RawLine::Setting(k, v) => Line::Setting(k@, v@),
            RawLine::Bad(m) => Line::Bad(m@),
        }
    }
}

/// Is the text a key?
fn valid_key(s: &str) -> (r: bool)
    ensures
        r == is_key(s@),
{
    let v = chars(s);
    if v.len() == 0 {
        return false;
    }
    let mut i: usize = 0;
    while i < v.len()
        invariant
            v@ == s@,
            i <= v.len(),
            forall|j: int| 0 <= j < i ==> is_key_char(#[trigger] s@[j]),
        decreases v.len() - i,
    {
        let c = v[i];
        if !(alpha(c) || digit(c) || c == '_' || c == '-' || c == '.') {
            assert(!is_key_char(s@[i as int]));
            return false;
        }
        i = i + 1;
    }
    true
}

fn read_line(raw: &str) -> (r: RawLine)
    ensures
        r@ == line_of(raw@),
{
    let t = trim(raw);
    if t.unicode_len() == 0 || starts_with_char(t, '#') || starts_with_char(t, ';') {
        return RawLine::Nothing;
    }
    match strip_char(t, '[') {
        Some(rest) => match split_once(rest, ']') {
            None => RawLine::Bad(owned("section header missing closing `]`")),
            Some((name, trailing)) => {
                let name = trim(name);
                if name.unicode_len() == 0 || trim(trailing).unicode_len() != 0 {
                    RawLine::Bad(cat3("invalid section header `", t, "`"))
                } else {
                    RawLine::Header(owned(name))
                }
            },
        },
        None => match split_once(t, '=') {
            None => RawLine::Bad(cat3("invalid line `", t, "`")),
            Some((key, value)) => {
                let key = trim(key);
                if !valid_key(key) {
                    RawLine::Bad(cat3("invalid key `", key, "`"))
                } else {
                    RawLine::Setting(owned(key), owned(trim_start(value)))
                }
            },
        },
    }
}

impl Default for UnitDocument {
    fn default() -> (r: UnitDocument)
        ensures
            r@ == Seq::<Section>::empty(),
    {
        let r = UnitDocument { sections: Vec::new() };
        assert(r@ =~= Seq::<Section>::empty());
        r
    }
}

impl UnitDocument {
    /// Read a unit file. Sections and settings keep their order; nothing is
    /// merged.
    pub fn parse(text: &str) -> (r: Result<UnitDocument, Error>)
        ensures
            outcome(r) == document_of(text@),
    {
        let ls = lines(text);
        let mut sections: Vec<UnitSection> = Vec::new();
        let mut i: usize = 0;
        proof {
            assert(texts(ls@).take(0) =~= seq![]);
            assert(sections_view(sections@) =~= seq![]);
        }
        while i < ls.len()
            invariant
                i <= ls.len(),
                texts(ls@) == text_lines(text@),
                read(texts(ls@).take(i as int)) == Ok::<Document, (nat, Text)>(
                    sections_view(sections@),
                ),
            decreases ls.len() - i,
        {
            let ghost was = sections_view(sections@);
            let ghost upto = texts(ls@).take(i + 1);
            proof {
                assert(upto.drop_last() =~= texts(ls@).take(i as int));
                assert(upto.last() == ls@[i as int]@);
            }
            match read_line(ls[i].as_str()) {
                RawLine::Nothing => {},
                RawLine::Header(name) => {
                    let s = UnitSection { name, entries: Vec::new() };
                    sections.push(s);
                    proof {
                        assert(entries_view(s.entries@) =~= seq![]);
                        assert(sections_view(sections@) =~= was.push(
                            Section { name: name@, entries: seq![] },
                        ));
                    }
                },
                RawLine::Setting(key, value) => {
                    match sections.pop() {
                        None => {
                            proof {
                                read_error_stays(texts(ls@), i + 1);
                            }
                            return Err(
                                Error::Parse {
                                    line: i + 1,
                                    message: cat3(
                                        "`",
                                        key.as_str(),
                                        "=` appears before any [Section] header",
                                    ),
                                },
                            );
                        },
                        Some(mut s) => {
                            let ghost before = s;
                            let e = UnitEntry { key, value };
                            s.entries.push(e);
                            proof {
                                assert(before@ == was.last());
                                assert(entries_view(s.entries@) =~= entries_view(
                                    before.entries@,
                                ).push(e@));
                            }
                            sections.push(s);
                            proof {
                                assert(sections_view(sections@) =~= with_setting(
                                    was,
                                    key@,
                                    value@,
                                ));
                            }
                        },
                    }
                },
                RawLine::Bad(message) => {
                    proof {
                        read_error_stays(texts(ls@), i + 1);
                    }
                    return Err(Error::Parse { line: i + 1, message });
                },
            }
            i = i + 1;
        }
        assert(texts(ls@).take(ls.len() as int) =~= texts(ls@));
        Ok(UnitDocument { sections })
    }

    /// Write the document as a unit file.
    pub fn to_text(&self) -> (r: String)
        ensures
            r@ == document_text(self@),
    {
        let mut out = String::new();
        let mut i: usize = 0;
        assert(self@.take(0) =~= seq![]);
        while i < self.sections.len()
            invariant
                i <= self.sections.len(),
                out@ == document_text(self@.take(i as int)),
            decreases self.sections.len() - i,
        {
            let ghost d = self@.take(i + 1);
            let ghost ls = document_lines(self@.take(i as int));
            assert(d.drop_last() =~= self@.take(i as int));
            assert(d.last() == self.sections@[i as int]@);
            if i > 0 {
                out.push('\n');
                assert((ls + gap(d)).drop_last() =~= ls);
                assert(out@ =~= terminated(ls + gap(d)));
            }
            assert(i == 0 ==> ls + gap(d) =~= ls);
            let ghost head = ls + gap(d);
            let ghost before = out@;
            let s = &self.sections[i];
            out.push('[');
            out.append(s.name.as_str());
            out.push(']');
            out.push('\n');
            proof {
                let h = head.push(header_line(s.name@));
                assert(h.drop_last() =~= head);
                assert(out@ =~= terminated(h));
                assert(h =~= head + seq![header_line(s.name@)] + setting_lines(
                    entries_view(s.entries@).take(0),
                ));
            }
            let mut j: usize = 0;
            while j < s.entries.len()
                invariant
                    j <= s.entries.len(),
                    out@ == terminated(
                        head + seq![header_line(s.name@)] + setting_lines(
                            entries_view(s.entries@).take(j as int),
                        ),
                    ),
                decreases s.entries.len() - j,
            {
                let ghost old_out = out@;
                let e = &s.entries[j];
                out.append(e.key.as_str());
                out.push('=');
                out.append(e.value.as_str());
                out.push('\n');
                proof {
                    let a = head + seq![header_line(s.name@)] + setting_lines(
                        entries_view(s.entries@).take(j as int),
                    );
                    let b = head + seq![header_line(s.name@)] + setting_lines(
                        entries_view(s.entries@).take(j + 1),
                    );
                    assert(b =~= a.push(setting_line(e@)));
                    assert(b.drop_last() =~= a);
                    assert(out@ =~= old_out + setting_line(e@) + seq!['\n']);
                }
                j = j + 1;
            }
            proof {
                assert(entries_view(s.entries@).take(s.entries.len() as int) =~= entries_view(
                    s.entries@,
                ));
                assert(head + seq![header_line(s.name@)] + setting_lines(entries_view(s.entries@))
                    =~= document_lines(d));
            }
            i = i + 1;
        }
        assert(self@.take(self.sections.len() as int) =~= self@);
        out
    }
}

// ---- laws -----------------------------------------------------------------------

/// A setting that survives being written: its key is a key, and its value
/// stands on one line with no white space at either end.
pub open spec fn plain_entry(e: Entry) -> bool {
    is_key(e.key) && is_trimmed(e.value) && lacks(e.value, '\n')
}

pub open spec fn plain_name(n: Text) -> bool {
    n.len() > 0 && is_trimmed(n) && lacks(n, '\n') && lacks(n, ']')
}

/// A document made of names, keys and values that a unit file can hold.
pub open spec fn plain(d: Document) -> bool {
    forall|i: int| 0 <= i < d.len() ==> plain_section(#[trigger] d[i])
}

pub open spec fn plain_section(s: Section) -> bool {
    plain_name(s.name) && forall|j: int|
        0 <= j < s.entries.len() ==> plain_entry(#[trigger] s.entries[j])
}

proof fn header_reads_back(name: Text)
    requires
        plain_name(name),
    ensures
        line_of(header_line(name)) == Line::Header(name),
{
    let t = header_line(name);
    assert(t[0] == '[' && t.last() == ']');
    trimmed_keeps(t);
    assert(t.skip(1) =~= name + seq![']'] + Seq::<char>::empty());
    cut_at(name, ']', seq![]);
    trimmed_keeps(name);
    trimmed_keeps(Seq::<char>::empty());
}

proof fn setting_reads_back(e: Entry)
    requires
        plain_entry(e),
    ensures
        line_of(setting_line(e)) == Line::Setting(e.key, e.value),
{
    let t = setting_line(e);
    assert(t[0] == e.key[0]);
    assert(is_key_char(e.key[0]));
    assert(is_key_char(e.key.last()));
    if e.value.len() > 0 {
        assert(t.last() == e.value.last());
    } else {
        assert(t.last() == '=');
    }
    trimmed_keeps(t);
    assert(lacks(e.key, '='));
    cut_at(e.key, '=', e.value);
    trimmed_keeps(e.key);
    trimmed_keeps(e.value);
}

/// A line after lines that line feeds end.
proof fn lines_append(a: Text, l: Text)
    requires
        a.len() == 0 || a.last() == '\n',
        lacks(l, '\n'),
    ensures
        text_lines(a + l + seq!['\n']) == text_lines(a).push(no_cr(l)),
    decreases a.len(),
{
    let p = chr('\n');
    let s = a + l + seq!['\n'];
    if a.len() == 0 {
        assert(s =~= l + seq!['\n']);
        assert forall|i: int| 0 <= i < l.len() implies !p(#[trigger] s[i]) by {
            assert(s[i] == l[i]);
        }
        find_unique(s, p, l.len() as int);
        assert(s.take(l.len() as int) =~= l);
        assert(s.skip(l.len() as int + 1) =~= Seq::<char>::empty());
        assert(text_lines(Seq::<char>::empty()) =~= seq![]);
        assert(text_lines(s) =~= seq![no_cr(l)]);
        assert(text_lines(a) =~= seq![]);
    } else {
        find_first(a, p);
        let k = find(a, p) as int;
        if k == a.len() {
            assert(!p(a[a.len() - 1]));
        }
        assert forall|i: int| 0 <= i < k implies !p(#[trigger] s[i]) by {
            assert(s[i] == a[i]);
        }
        find_unique(s, p, k);
        assert(s.take(k) =~= a.take(k));
        assert(s.skip(k + 1) =~= a.skip(k + 1) + l + seq!['\n']);
        if a.skip(k + 1).len() > 0 {
            assert(a.skip(k + 1).last() == a.last());
        }
        lines_append(a.skip(k + 1), l);
        assert(text_lines(s) =~= text_lines(a).push(no_cr(l)));
    }
}

/// The lines of a text made of lines are those lines.
proof fn lines_of_terminated(ls: Seq<Text>)
    requires
        forall|i: int| 0 <= i < ls.len() ==> lacks(#[trigger] ls[i], '\n') && no_cr(ls[i]) == ls[i],
    ensures
        text_lines(terminated(ls)) == ls,
        terminated(ls).len() == 0 || terminated(ls).last() == '\n',
    decreases ls.len(),
{
    if ls.len() > 0 {
        let init = ls.drop_last();
        assert forall|i: int| 0 <= i < init.len() implies lacks(#[trigger] init[i], '\n') && no_cr(
            init[i],
        ) == init[i] by {
            assert(init[i] == ls[i]);
        }
        lines_of_terminated(init);
        lines_append(terminated(init), ls.last());
        assert(ls =~= init.push(ls.last()));
    }
}

proof fn settings_read_back(base: Seq<Text>, d: Document, v: Seq<Entry>)
    requires
        d.len() > 0,
        d.last().entries == Seq::<Entry>::empty(),
        read(base) == Ok::<Document, (nat, Text)>(d),
        forall|j: int| 0 <= j < v.len() ==> plain_entry(#[trigger] v[j]),
    ensures
        read(base + setting_lines(v)) == Ok::<Document, (nat, Text)>(
            d.update(d.len() - 1, Section { name: d.last().name, entries: v }),
        ),
    decreases v.len(),
{
    let ls = base + setting_lines(v);
    if v.len() == 0 {
        assert(ls =~= base);
        assert(v =~= seq![]);
        assert(d =~= d.update(d.len() - 1, Section { name: d.last().name, entries: v }));
    } else {
        let w = v.drop_last();
        assert forall|j: int| 0 <= j < w.len() implies plain_entry(#[trigger] w[j]) by {
            assert(w[j] == v[j]);
        }
        settings_read_back(base, d, w);
        assert(ls.drop_last() =~= base + setting_lines(w));
        assert(ls.last() == setting_line(v.last()));
        assert(plain_entry(v[v.len() - 1]));
        setting_reads_back(v.last());
        let e = d.update(d.len() - 1, Section { name: d.last().name, entries: w });
        assert(w.push(v.last()) =~= v);
        assert(with_setting(e, v.last().key, v.last().value) =~= d.update(
            d.len() - 1,
            Section { name: d.last().name, entries: v },
        ));
    }
}

proof fn document_reads_back(d: Document)
    requires
        plain(d),
    ensures
        read(document_lines(d)) == Ok::<Document, (nat, Text)>(d),
    decreases d.len(),
{
    if d.len() == 0 {
        assert(d =~= seq![]);
    } else {
        let init = d.drop_last();
        assert forall|i: int| 0 <= i < init.len() implies plain_section(#[trigger] init[i]) by {
            assert(init[i] == d[i]);
        }
        document_reads_back(init);
        let ls = document_lines(init) + gap(d);
        let s = d.last();
        assert(plain_section(d[d.len() - 1]));
        if d.len() > 1 {
            assert(ls.drop_last() =~= document_lines(init));
            assert(ls.last() =~= Seq::<char>::empty());
            trimmed_keeps(Seq::<char>::empty());
        } else {
            assert(ls =~= document_lines(init));
        }
        assert(read(ls) == Ok::<Document, (nat, Text)>(init));
        let head = ls.push(header_line(s.name));
        assert(head.drop_last() =~= ls);
        header_reads_back(s.name);
        let opened = init.push(Section { name: s.name, entries: seq![] });
        settings_read_back(head, opened, s.entries);
        assert(head + setting_lines(s.entries) =~= document_lines(d));
        assert(opened.update(opened.len() - 1, Section { name: s.name, entries: s.entries })
            =~= d);
    }
}

/// Every line of a plain document is one line of text.
proof fn document_lines_are_lines(d: Document)
    requires
        plain(d),
    ensures
        forall|i: int|
            0 <= i < document_lines(d).len() ==> lacks(#[trigger] document_lines(d)[i], '\n')
                && no_cr(document_lines(d)[i]) == document_lines(d)[i],
    decreases d.len(),
{
    if d.len() > 0 {
        let init = d.drop_last();
        assert forall|i: int| 0 <= i < init.len() implies plain_section(#[trigger] init[i]) by {
            assert(init[i] == d[i]);
        }
        document_lines_are_lines(init);
        let s = d.last();
        assert(plain_section(d[d.len() - 1]));
        let ls = document_lines(d);
        let a = document_lines(init);
        let g = gap(d);
        assert forall|i: int| 0 <= i < ls.len() implies lacks(#[trigger] ls[i], '\n') && no_cr(ls[i])
            == ls[i] by {
            if i < a.len() {
                assert(ls[i] == a[i]);
            } else if i < a.len() + g.len() {
                assert(ls[i] =~= seq![]);
            } else if i == a.len() + g.len() {
                assert(ls[i] == header_line(s.name));
                assert(header_line(s.name).last() == ']');
            } else {
                let e = s.entries[i - a.len() - g.len() - 1];
                assert(ls[i] == setting_line(e));
                assert(plain_entry(e));
                assert forall|k: int| 0 <= k < ls[i].len() implies #[trigger] ls[i][k] != '\n' by {
                    if k < e.key.len() {
                        assert(is_key_char(e.key[k]));
                    }
                }
                if e.value.len() == 0 {
                    assert(ls[i].last() == '=');
                } else {
                    assert(ls[i].last() == e.value.last());
                }
            }
        }
    }
}

/// A plain document, written and read again, is the same document.
pub proof fn written_document_reads_back(d: Document)
    requires
        plain(d),
    ensures
        document_of(document_text(d)) == Ok::<Document, Fault>(d),
{
    document_lines_are_lines(d);
    lines_of_terminated(document_lines(d));
    document_reads_back(d);
}

proof fn line_is_plain(raw: Text)
    requires
        lacks(raw, '\n'),
    ensures
        match line_of(raw) {
            Line::Header(n) => plain_name(n),
            Line::Setting(key, value) => plain_entry(Entry { key, value }),
            _ => true,
        },
{
    let t = trimmed(raw);
    trimmed_is_trimmed(raw);
    assert(lacks(t, '\n')) by {
        assert forall|i: int| 0 <= i < t.len() implies #[trigger] t[i] != '\n' by {
            assert(raw.contains(t[i]));
        }
    }
    if t.len() > 0 && t[0] == '[' {
        let u = t.skip(1);
        cut_lacks(u, ']');
        match cut(u, ']') {
            Some((a, b)) => {
                trimmed_is_trimmed(a);
                let n = trimmed(a);
                assert forall|i: int| 0 <= i < n.len() implies #[trigger] n[i] != '\n' && n[i]
                    != ']' by {
                    assert(a.contains(n[i]));
                    let j = choose|j: int| 0 <= j < a.len() && a[j] == n[i];
                    assert(a[j] == u[j]);
                    assert(u[j] == t[j + 1]);
                }
            },
            None => {},
        }
    } else if t.len() > 0 {
        cut_lacks(t, '=');
        match cut(t, '=') {
            Some((a, b)) => {
                trimmed_is_trimmed(b);
                let v = trimmed_start(b);
                assert forall|i: int| 0 <= i < v.len() implies #[trigger] v[i] != '\n' by {
                    assert(b.contains(v[i]));
                    let j = choose|j: int| 0 <= j < b.len() && b[j] == v[i];
                    assert(b[j] == t[a.len() + 1 + j]);
                }
                if v.len() > 0 {
                    assert(b.last() == t.last());
                }
            },
            None => {},
        }
    }
}

proof fn read_is_plain(ls: Seq<Text>)
    requires
        forall|i: int| 0 <= i < ls.len() ==> lacks(#[trigger] ls[i], '\n'),
    ensures
        read(ls) is Ok ==> plain(read(ls)->Ok_0),
    decreases ls.len(),
{
    if ls.len() > 0 && read(ls) is Ok {
        let init = ls.drop_last();
        assert forall|i: int| 0 <= i < init.len() implies lacks(#[trigger] init[i], '\n') by {
            assert(init[i] == ls[i]);
        }
        read_is_plain(init);
        assert(lacks(ls[ls.len() - 1], '\n'));
        line_is_plain(ls.last());
        let d = read(init)->Ok_0;
        let e = read(ls)->Ok_0;
        assert forall|i: int| 0 <= i < e.len() implies plain_section(#[trigger] e[i]) by {
            match line_of(ls.last()) {
                Line::Setting(key, value) => {
                    if i == d.len() - 1 {
                        assert(plain_section(d[i]));
                        let x = d[i].entries.push(Entry { key, value });
                        assert forall|j: int| 0 <= j < x.len() implies plain_entry(
                            #[trigger] x[j],
                        ) by {
                            if j < x.len() - 1 {
                                assert(x[j] == d[i].entries[j]);
                            }
                        }
                    } else {
                        assert(e[i] == d[i]);
                    }
                },
                Line::Header(n) => {
                    if i < d.len() {
                        assert(e[i] == d[i]);
                    }
                },
                _ => {},
            }
        }
    }
}

proof fn lines_lack_feeds(s: Text)
    ensures
        forall|i: int| 0 <= i < text_lines(s).len() ==> lacks(#[trigger] text_lines(s)[i], '\n'),
    decreases s.len(),
{
    let p = chr('\n');
    find_first(s, p);
    let k = find(s, p) as int;
    if k < s.len() {
        lines_lack_feeds(s.skip(k + 1));
        let rest = text_lines(s.skip(k + 1));
        assert forall|i: int| 0 <= i < text_lines(s).len() implies lacks(
            #[trigger] text_lines(s)[i],
            '\n',
        ) by {
            if i == 0 {
                let l = text_lines(s)[0];
                assert forall|j: int| 0 <= j < l.len() implies #[trigger] l[j] != '\n' by {
                    assert(l[j] == s[j]);
                    assert(!p(s[j]));
                }
            } else {
                assert(text_lines(s)[i] == rest[i - 1]);
            }
        }
    } else if s.len() > 0 {
        assert forall|j: int| 0 <= j < s.len() implies #[trigger] s[j] != '\n' by {
            assert(!p(s[j]));
        }
    }
}

/// What a unit file holds is a plain document.
pub proof fn read_document_is_plain(text: Text)
    ensures
        document_of(text) is Ok ==> plain(document_of(text)->Ok_0),
{
    lines_lack_feeds(text);
    read_is_plain(text_lines(text));
}

/// Reading a unit file, writing what was read and reading that again gives
/// the same document.
pub proof fn rewriting_keeps_the_document(text: Text)
    requires
        document_of(text) is Ok,
    ensures
        document_of(document_text(document_of(text)->Ok_0)) == document_of(text),
{
    read_document_is_plain(text);
    written_document_reads_back(document_of(text)->Ok_0);
}

// ---- definitions ----------------------------------------------------------------

/// A named unit with its document.
#[derive(Debug, Clone, PartialEq, Eq)]
pub struct UnitDefinition {
    pub name: String,
    pub kind: UnitType,
    pub document: UnitDocument,
}

/// A definition, as specifications see it.
#[verifier::ext_equal]
pub ghost struct Definition {
    pub name: Text,
    pub kind: UnitType,
    pub document: Document,
}

impl View for UnitDefinition {
    type V = Definition;

    open spec fn view(&self) -> Definition {
        Definition { name: self.name@, kind: self.kind, document: self.document@ }
    }
}

pub open spec fn unknown_suffix(name: Text) -> Text {
    "unit name `"@ + name + "` has no recognized unit suffix"@
}

/// The definition that a unit's name and the text of its unit file make.
pub open spec fn definition_of(name: Text, text: Text) -> Result<Definition, Fault> {
    match (type_of_name(name), document_of(text)) {
        (None, _) => Err(Fault::InvalidName(unknown_suffix(name))),
        (Some(_), Err(e)) => Err(e),
        (Some(kind), Ok(document)) => Ok(Definition { name, kind, document }),
    }
}

impl UnitDefinition {
    /// Read the unit file of a unit.
    pub fn parse(name: &str, text: &str) -> (r: Result<UnitDefinition, Error>)
        ensures
            outcome(r) == definition_of(name@, text@),
    {
        match UnitType::from_unit_name(name) {
            None => Err(
                Error::InvalidName(cat3("unit name `", name, "` has no recognized unit suffix")),
            ),
            Some(kind) => match UnitDocument::parse(text) {
                Ok(document) => Ok(UnitDefinition { name: owned(name), kind, document }),
                Err(e) => Err(e),
            },
        }
    }

    /// Write the unit file of the unit.
    pub fn to_text(&self) -> (r: String)
        ensures
            r@ == document_text(self.document@),
    {
        self.document.to_text()
    }
}

} // verus!
