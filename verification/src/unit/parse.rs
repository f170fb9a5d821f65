//! Unit files as settings: what each key of a section holds, and the quoting
//! of values.

use vstd::prelude::*;
use vstd::string::*;

use crate::repo::domain::{document_of, Document, Section, UnitDocument};
use crate::repo::error::{outcome, Error};
use crate::text::{
    chars, cut, find, find_char, find_first, is_space, non_spaces, owned, same, space, split_once,
    string_of, texts, trim, trimmed, trimmed_start, Text,
};

verus! {

/// The settings of a unit file, main file and drop-ins one behind the other.
#[derive(Debug, Clone)]
pub struct RawUnitFile {
    pub document: UnitDocument,
}

impl View for RawUnitFile {
    type V = Document;

    open spec fn view(&self) -> Document {
        self.document@
    }
}

/// The values of a key among the entries of one section.
pub open spec fn section_values(s: Section, key: Text, upto: int) -> Seq<Text>
    decreases upto,
{
    if upto <= 0 {
        seq![]
    } else if s.entries[upto - 1].key == key {
        section_values(s, key, upto - 1).push(s.entries[upto - 1].value)
    } else {
        section_values(s, key, upto - 1)
    }
}

/// All values of a key in the sections of a name, in order.
pub open spec fn values(d: Document, section: Text, key: Text) -> Seq<Text>
    decreases d.len(),
{
    if d.len() == 0 {
        seq![]
    } else if d.last().name == section {
        values(d.drop_last(), section, key) + section_values(
            d.last(),
            key,
            d.last().entries.len() as int,
        )
    } else {
        values(d.drop_last(), section, key)
    }
}

/// The value of a key: the last one counts.
pub open spec fn value(d: Document, section: Text, key: Text) -> Option<Text> {
    let v = values(d, section, key);
    if v.len() == 0 {
        None
    } else {
        Some(v.last())
    }
}

/// Read the settings of a unit file.
pub fn parse(text: &str) -> (r: Result<RawUnitFile, Error>)
    ensures
        outcome(r) == document_of(text@),
{
    match UnitDocument::parse(text) {
        Ok(document) => Ok(RawUnitFile { document }),
        Err(e) => Err(e),
    }
}

impl RawUnitFile {
    /// All values of a key, in order.
    pub fn list(&self, section: &str, key: &str) -> (r: Vec<String>)
        ensures
            texts(r@) == values(self@, section@, key@),
    {
        let mut out: Vec<String> = Vec::new();
        let mut i: usize = 0;
        proof {
            assert(self@.take(0) =~= seq![]);
            assert(texts(out@) =~= seq![]);
        }
        while i < self.document.sections.len()
            invariant
                i <= self.document.sections.len(),
                texts(out@) == values(self@.take(i as int), section@, key@),
            decreases self.document.sections.len() - i,
        {
            let s = &self.document.sections[i];
            let ghost upto = self@.take(i + 1);
            proof {
                assert(upto.drop_last() =~= self@.take(i as int));
                assert(upto.last() == s@);
            }
            if same(s.name.as_str(), section) {
                let ghost before = texts(out@);
                let mut j: usize = 0;
                assert(texts(out@) =~= before + section_values(s@, key@, 0));
                while j < s.entries.len()
                    invariant
                        j <= s.entries.len(),
                        texts(out@) == before + section_values(s@, key@, j as int),
                    decreases s.entries.len() - j,
                {
                    let e = &s.entries[j];
                    assert(s@.entries[j as int] == e@);
                    if same(e.key.as_str(), key) {
                        let ghost old_out = out@;
                        out.push(e.value.clone());
                        assert(texts(out@) =~= texts(old_out).push(e.value@));
                        assert(texts(out@) =~= before + section_values(s@, key@, j + 1));
                    }
                    j = j + 1;
                }
            }
            i = i + 1;
        }
        assert(self@.take(self.document.sections.len() as int) =~= self@);
        out
    }

    /// The value of a key; the last one counts.
    pub fn scalar(&self, section: &str, key: &str) -> (r: Option<String>)
        ensures
            match r {
                Some(v) => value(self@, section@, key@) == Some(v@),
                None => value(self@, section@, key@) is None,
            },
    {
        let mut v = self.list(section, key);
        let ghost all = v@;
        let last = v.pop();
        proof {
            if last is Some {
                assert(texts(all).last() == (last->0)@);
            }
        }
        last
    }
}

// ---- quoting --------------------------------------------------------------------

pub open spec fn is_quote(c: char) -> bool {
    c == '"' || c == '\''
}

/// The first word of a text that does not begin with white space, without its
/// quotes, and what follows it.
pub open spec fn word(s: Text) -> Option<(Text, Text)>
    decreases s.len(),
{
    if s.len() == 0 || is_space(s[0]) {
        Some((seq![], s))
    } else if is_quote(s[0]) {
        match cut(s.skip(1), s[0]) {
            Some((inner, rest)) => {
                proof {
                    find_first(s.skip(1), crate::text::chr(s[0]));
                }
                match word(rest) {
                    Some((w, after)) => Some((inner + w, after)),
                    None => None,
                }
            },
            None => None,
        }
    } else {
        match word(s.skip(1)) {
            Some((w, after)) => Some((seq![s[0]] + w, after)),
            None => None,
        }
    }
}

/// What follows a word is shorter than the text.
pub proof fn word_is_short(s: Text)
    ensures
        word(s) is Some ==> (word(s)->0).1.len() <= s.len() && (s.len() > 0 && !is_space(s[0])
            ==> (word(s)->0).1.len() < s.len()),
    decreases s.len(),
{
    if s.len() > 0 && !is_space(s[0]) {
        if is_quote(s[0]) {
            find_first(s.skip(1), crate::text::chr(s[0]));
            match cut(s.skip(1), s[0]) {
                Some((inner, rest)) => {
                    word_is_short(rest);
                },
                None => {},
            }
        } else {
            word_is_short(s.skip(1));
        }
    }
}

/// The words of a text. Quotes group; a quote that is not closed is an error.
pub open spec fn tokens(s: Text) -> Result<Seq<Text>, Text>
    decreases s.len(),
{
    let t = trimmed_start(s);
    if t.len() == 0 {
        Ok(seq![])
    } else {
        match word(t) {
            None => Err("unterminated quote"@),
            Some((w, rest)) => {
                proof {
                    crate::text::trimmed_is_trimmed(s);
                    find_first(s, non_spaces());
                    word_is_short(t);
                }
                match tokens(rest) {
                    Ok(v) => Ok(seq![w] + v),
                    Err(e) => Err(e),
                }
            },
        }
    }
}

/// Read one word from `from` on; the word and where it ends.
fn read_word(v: &Vec<char>, from: usize) -> (r: Option<(String, usize)>)
    requires
        from <= v.len(),
    ensures
        match r {
            Some((w, to)) => from <= to <= v.len() && word(v@.skip(from as int)) == Some(
                (w@, v@.skip(to as int)),
            ),
            None => word(v@.skip(from as int)) is None,
        },
{
    let mut out = String::new();
    let mut i: usize = from;
    proof {
        match word(v@.skip(from as int)) {
            Some((w, after)) => {
                assert(out@ + w =~= w);
            },
            None => {},
        }
    }
    while i < v.len() && !space(v[i])
        invariant
            from <= i <= v.len(),
            word(v@.skip(from as int)) == (match word(v@.skip(i as int)) {
                Some((w, after)) => Some((out@ + w, after)),
                None => None,
            }),
        decreases v.len() - i,
    {
        let ghost rest = v@.skip(i as int);
        let ghost before = out@;
        assert(rest[0] == v@[i as int]);
        let c = v[i];
        if c == '"' || c == '\'' {
            let k = find_char(v, i + 1, c);
            assert(rest.skip(1) =~= v@.skip(i + 1));
            if k == v.len() {
                return None;
            }
            let inner = string_of(v, i + 1, k);
            out.append(inner.as_str());
            proof {
                assert(rest.skip(1).take(k - i - 1) =~= inner@);
                assert(rest.skip(1).skip(k - i) =~= v@.skip(k + 1));
                match word(v@.skip(k + 1)) {
                    Some((w, after)) => {
                        assert(before + (inner@ + w) =~= out@ + w);
                    },
                    None => {},
                }
            }
            i = k + 1;
        } else {
            out.push(c);
            proof {
                assert(rest.skip(1) =~= v@.skip(i + 1));
                match word(v@.skip(i + 1)) {
                    Some((w, after)) => {
                        assert(before + (seq![c] + w) =~= out@ + w);
                    },
                    None => {},
                }
            }
            i = i + 1;
        }
    }
    proof {
        let rest = v@.skip(i as int);
        if rest.len() > 0 {
            assert(rest[0] == v@[i as int]);
        }
        assert(out@ + Seq::<char>::empty() =~= out@);
    }
    Some((out, i))
}

/// The words of a text, as specifications see the result.
pub open spec fn words_result(r: Result<Vec<String>, String>) -> Result<Seq<Text>, Text> {
    match r {
        Ok(v) => Ok(texts(v@)),
        Err(e) => Err(e@),
    }
}

/// Split a value into words. Single and double quotes group.
pub fn tokenize(s: &str) -> (r: Result<Vec<String>, String>)
    ensures
        words_result(r) == tokens(s@),
{
    let v = chars(s);
    let mut out: Vec<String> = Vec::new();
    let mut i: usize = 0;
    proof {
        assert(v@.skip(0) =~= v@);
        match tokens(s@) {
            Ok(t) => {
                assert(texts(out@) + t =~= t);
            },
            Err(_) => {},
        }
    }
    loop
        invariant
            v@ == s@,
            i <= v.len(),
            tokens(s@) == (match tokens(v@.skip(i as int)) {
                Ok(t) => Ok(texts(out@) + t),
                Err(e) => Err(e),
            }),
        decreases v.len() - i,
    {
        let ghost rest = v@.skip(i as int);
        let start = skip_space(&v, i);
        assert(trimmed_start(rest) =~= v@.skip(start as int));
        if start == v.len() {
            assert(texts(out@) + Seq::<Text>::empty() =~= texts(out@));
            return Ok(out);
        }
        let ghost before = out@;
        proof {
            crate::text::trimmed_is_trimmed(rest);
            word_is_short(v@.skip(start as int));
        }
        match read_word(&v, start) {
            None => {
                return Err(owned("unterminated quote"));
            },
            Some((w, to)) => {
                let ghost text = w@;
                out.push(w);
                proof {
                    assert(texts(out@) =~= texts(before).push(text));
                    match tokens(v@.skip(to as int)) {
                        Ok(t) => {
                            assert(texts(before) + (seq![text] + t) =~= texts(out@) + t);
                        },
                        Err(_) => {},
                    }
                }
                i = to;
            },
        }
    }
}

fn skip_space(v: &Vec<char>, from: usize) -> (r: usize)
    requires
        from <= v.len(),
    ensures
        from <= r <= v.len(),
        r - from == find(v@.skip(from as int), non_spaces()),
{
    let mut i: usize = from;
    while i < v.len() && space(v[i])
        invariant
            from <= i <= v.len(),
            forall|j: int| from <= j < i ==> is_space(#[trigger] v@[j]),
        decreases v.len() - i,
    {
        i = i + 1;
    }
    proof {
        let s = v@.skip(from as int);
        assert forall|j: int| 0 <= j < i - from implies !non_spaces()(#[trigger] s[j]) by {
            assert(s[j] == v@[from + j]);
        }
        crate::text::find_unique(s, non_spaces(), i - from);
    }
    i
}

/// A value without white space around it, and without quotes where they stand
/// around all of it.
pub open spec fn unquoted(s: Text) -> Result<Text, Text> {
    let t = trimmed(s);
    if t.len() > 0 && is_quote(t[0]) {
        match cut(t.skip(1), t[0]) {
            Some((inner, rest)) => if rest.len() == 0 {
                Ok(inner)
            } else {
                Ok(t)
            },
            None => Err("unterminated quote"@),
        }
    } else {
        Ok(t)
    }
}

/// A text result, as specifications see it.
pub open spec fn text_result(r: Result<String, String>) -> Result<Text, Text> {
    match r {
        Ok(v) => Ok(v@),
        Err(e) => Err(e@),
    }
}

/// Take the quotes off a value.
pub fn unquote_scalar(s: &str) -> (r: Result<String, String>)
    ensures
        text_result(r) == unquoted(s@),
{
    let t = trim(s);
    let n = t.unicode_len();
    if n > 0 && (t.get_char(0) == '"' || t.get_char(0) == '\'') {
        let q = t.get_char(0);
        let rest = t.substring_char(1, n);
        assert(rest@ =~= t@.skip(1));
        match split_once(rest, q) {
            Some((inner, after)) => if after.unicode_len() == 0 {
                Ok(owned(inner))
            } else {
                Ok(owned(t))
            },
            None => Err(owned("unterminated quote")),
        }
    } else {
        Ok(owned(t))
    }
}

/// Is the character one that a word is made of without quotes?
pub open spec fn is_plain(c: char) -> bool {
    !is_space(c) && !is_quote(c)
}

proof fn plain_word(w: Text, after: Text)
    requires
        forall|i: int| 0 <= i < w.len() ==> is_plain(#[trigger] w[i]),
        after.len() == 0 || is_space(after[0]),
    ensures
        word(w + after) == Some((w, after)),
    decreases w.len(),
{
    let s = w + after;
    if w.len() == 0 {
        assert(s =~= after);
        assert(w =~= seq![]);
    } else {
        assert(is_plain(w[0]));
        assert(s[0] == w[0]);
        let t = w.skip(1);
        assert forall|i: int| 0 <= i < t.len() implies is_plain(#[trigger] t[i]) by {
            assert(t[i] == w[i + 1]);
        }
        plain_word(t, after);
        assert(s.skip(1) =~= t + after);
        assert(seq![w[0]] + t =~= w);
    }
}

/// A word without quotes is itself.
pub proof fn plain_words_stay(w: Text)
    requires
        w.len() > 0,
        forall|i: int| 0 <= i < w.len() ==> is_plain(#[trigger] w[i]),
    ensures
        tokens(w) == Ok::<Seq<Text>, Text>(seq![w]),
        unquoted(w) == Ok::<Text, Text>(w),
{
    assert(is_plain(w[0]));
    assert(is_plain(w[w.len() - 1]));
    crate::text::find_unique(w, non_spaces(), 0);
    assert(trimmed_start(w) =~= w);
    plain_word(w, seq![]);
    assert(w + Seq::<char>::empty() =~= w);
    nothing_has_no_words();
    assert(seq![w] + Seq::<Text>::empty() =~= seq![w]);
    crate::text::trimmed_is_the_rest(seq![], w, seq![]);
    assert(seq![] + w + seq![] =~= w);
}

proof fn nothing_has_no_words()
    ensures
        tokens(seq![]) == Ok::<Seq<Text>, Text>(seq![]),
{
    let e = Seq::<char>::empty();
    find_first(e, non_spaces());
    assert(trimmed_start(e) =~= e);
}

/// What stands in quotes is one word, spaces and quotes of the other kind
/// included; the quotes are not part of it. Without the second quote it is an
/// error.
pub proof fn quotes_group(q: char, inner: Text)
    requires
        is_quote(q),
        crate::text::lacks(inner, q),
    ensures
        tokens(seq![q] + inner + seq![q]) == Ok::<Seq<Text>, Text>(seq![inner]),
        unquoted(seq![q] + inner + seq![q]) == Ok::<Text, Text>(inner),
        tokens(seq![q] + inner) is Err,
{
    let s = seq![q] + inner + seq![q];
    let k = inner.len() as int;
    let p = crate::text::chr(q);
    assert(s[0] == q);
    crate::text::find_unique(s, non_spaces(), 0);
    assert(trimmed_start(s) =~= s);
    let t = s.skip(1);
    assert forall|i: int| 0 <= i < k implies !p(#[trigger] t[i]) by {
        assert(t[i] == inner[i]);
    }
    assert(t[k] == q);
    crate::text::find_unique(t, p, k);
    assert(t.take(k) =~= inner);
    assert(t.skip(k + 1) =~= seq![]);
    let e = Seq::<char>::empty();
    assert(word(e) == Some((e, e)));
    assert(inner + e =~= inner);
    assert(word(s) == Some((inner, e)));
    nothing_has_no_words();
    assert(seq![inner] + Seq::<Text>::empty() =~= seq![inner]);
    crate::text::trimmed_is_the_rest(seq![], s, seq![]);
    assert(seq![] + s + seq![] =~= s);
    let open = seq![q] + inner;
    assert(open[0] == q);
    crate::text::find_unique(open, non_spaces(), 0);
    assert(trimmed_start(open) =~= open);
    assert(open.skip(1) =~= inner);
    assert forall|i: int| 0 <= i < k implies !p(#[trigger] inner[i]) by {}
    crate::text::find_unique(inner, p, k);
    assert(word(open) is None);
}

/// A text whose first word is known: the word comes first, then the words of what
/// follows.
pub proof fn words_are_read_in_order(w: Text, rest: Text)
    requires
        w.len() > 0,
        forall|i: int| 0 <= i < w.len() ==> is_plain(#[trigger] w[i]),
        tokens(rest) is Ok,
    ensures
        tokens(w + seq![' '] + rest) == Ok::<Seq<Text>, Text>(seq![w] + tokens(rest)->Ok_0),
{
    let after = seq![' '] + rest;
    let s = w + after;
    assert(w + seq![' '] + rest =~= s);
    assert(is_plain(w[0]));
    assert(s[0] == w[0]);
    crate::text::find_unique(s, non_spaces(), 0);
    assert(trimmed_start(s) =~= s);
    plain_word(w, after);
    let k = find(rest, non_spaces()) as int;
    find_first(rest, non_spaces());
    assert forall|i: int| 0 <= i < k + 1 implies !non_spaces()(#[trigger] after[i]) by {
        if i > 0 {
            assert(after[i] == rest[i - 1]);
        }
    }
    if k < rest.len() {
        assert(after[k + 1] == rest[k]);
    }
    crate::text::find_unique(after, non_spaces(), k + 1);
    assert(trimmed_start(after) =~= trimmed_start(rest));
    assert(tokens(after) == tokens(rest));
}

/// The only thing that can be wrong with quoted words is a quote that has no end.
pub proof fn quotes_that_do_not_end_are_refused(s: Text)
    ensures
        tokens(s) is Err ==> tokens(s) == Err::<Seq<Text>, Text>("unterminated quote"@),
        unquoted(s) is Err ==> unquoted(s) == Err::<Text, Text>("unterminated quote"@),
    decreases s.len(),
{
    let t = trimmed_start(s);
    if t.len() > 0 && word(t) is Some {
        crate::text::trimmed_is_trimmed(s);
        find_first(s, non_spaces());
        word_is_short(t);
        match word(t) {
            Some((w, rest)) => {
                quotes_that_do_not_end_are_refused(rest);
            },
            None => {},
        }
    }
}

} // verus!
