//! Text as sequences of characters: scanning, splitting, case folding,
//! numbers and ordering. Everything the unit files, the control protocol and
//! the listings need of strings is stated here over `Seq<char>`.

use vstd::prelude::*;
use vstd::string::*;

pub mod laws;

verus! {

/// Text, as specifications see it.
pub type Text = Seq<char>;

/// `String::push`: the character goes to the end of the string.
pub assume_specification[ String::push ](s: &mut String, c: char)
    ensures
        final(s)@ == old(s)@.push(c),
;

/// The views of a sequence of strings.
pub open spec fn texts(v: Seq<String>) -> Seq<Text> {
    Seq::new(v.len(), |i: int| v[i]@)
}

/// The view of an optional string.
pub open spec fn opt_text(v: Option<String>) -> Option<Text> {
    match v {
        Some(s) => Some(s@),
        None => None,
    }
}

// ---- character classes -------------------------------------------------------

/// Unicode `White_Space`.
pub open spec fn is_space(c: char) -> bool {
    ||| '\u{9}' <= c <= '\u{d}'
    ||| c == '\u{20}'
    ||| c == '\u{85}'
    ||| c == '\u{a0}'
    ||| c == '\u{1680}'
    ||| '\u{2000}' <= c <= '\u{200a}'
    ||| c == '\u{2028}'
    ||| c == '\u{2029}'
    ||| c == '\u{202f}'
    ||| c == '\u{205f}'
    ||| c == '\u{3000}'
}

pub open spec fn is_digit(c: char) -> bool {
    '0' <= c <= '9'
}

pub open spec fn is_alpha(c: char) -> bool {
    'a' <= c <= 'z' || 'A' <= c <= 'Z'
}

/// An ASCII letter in lower case; any other character unchanged.
pub open spec fn lower_char(c: char) -> char {
    if 'A' <= c <= 'Z' {
        ((c as u32) + 32) as char
    } else {
        c
    }
}

/// An ASCII letter in upper case; any other character unchanged.
pub open spec fn upper_char(c: char) -> char {
    if 'a' <= c <= 'z' {
        ((c as u32) - 32) as char
    } else {
        c
    }
}

pub fn space(c: char) -> (r: bool)
    ensures
        r == is_space(c),
{
    ('\u{9}' <= c && c <= '\u{d}') || c == '\u{20}' || c == '\u{85}' || c == '\u{a0}' || c
        == '\u{1680}' || ('\u{2000}' <= c && c <= '\u{200a}') || c == '\u{2028}' || c == '\u{2029}'
        || c == '\u{202f}' || c == '\u{205f}' || c == '\u{3000}'
}

pub fn digit(c: char) -> (r: bool)
    ensures
        r == is_digit(c),
{
    '0' <= c && c <= '9'
}

pub fn alpha(c: char) -> (r: bool)
    ensures
        r == is_alpha(c),
{
    ('a' <= c && c <= 'z') || ('A' <= c && c <= 'Z')
}

pub fn to_lower_char(c: char) -> (r: char)
    ensures
        r == lower_char(c),
{
    if 'A' <= c && c <= 'Z' {
        ((c as u8) + 32) as char
    } else {
        c
    }
}

pub fn to_upper_char(c: char) -> (r: char)
    ensures
        r == upper_char(c),
{
    if 'a' <= c && c <= 'z' {
        ((c as u8) - 32) as char
    } else {
        c
    }
}

// ---- whole strings ------------------------------------------------------------

/// The characters of a string.
pub fn chars(s: &str) -> (r: Vec<char>)
    ensures
        r@ == s@,
{
    let mut v: Vec<char> = Vec::new();
    for c in it: s.chars()
        invariant
            v@ == it.seq().take(it.index()),
            it.seq() == s@,
    {
        v.push(c);
        assert(it.seq().take(it.index() + 1) =~= it.seq().take(it.index()).push(c));
    }
    assert(s@.take(s@.len() as int) =~= s@);
    v
}

/// The string of the characters `from..to` of `v`.
pub fn string_of(v: &Vec<char>, from: usize, to: usize) -> (r: String)
    requires
        from <= to <= v.len(),
    ensures
        r@ == v@.subrange(from as int, to as int),
{
    let mut out = String::new();
    let mut i: usize = from;
    while i < to
        invariant
            from <= i <= to <= v.len(),
            out@ == v@.subrange(from as int, i as int),
        decreases to - i,
    {
        out.push(v[i]);
        assert(v@.subrange(from as int, i + 1) =~= v@.subrange(from as int, i as int).push(v@[i as int]));
        i = i + 1;
    }
    out
}

/// Are the two strings the same text?
pub fn same(a: &str, b: &str) -> (r: bool)
    ensures
        r == (a@ == b@),
{
    let x = chars(a);
    let y = chars(b);
    if x.len() != y.len() {
        return false;
    }
    let mut i: usize = 0;
    while i < x.len()
        invariant
            i <= x.len() == y.len(),
            x@ == a@,
            y@ == b@,
            forall|j: int| 0 <= j < i ==> x@[j] == y@[j],
        decreases x.len() - i,
    {
        if x[i] != y[i] {
            return false;
        }
        i = i + 1;
    }
    assert(x@ =~= y@);
    true
}

// ---- scanning -------------------------------------------------------------------

/// The characters equal to `c`.
pub open spec fn chr(c: char) -> spec_fn(char) -> bool {
    |x: char| x == c
}

/// The white-space characters.
pub open spec fn spaces() -> spec_fn(char) -> bool {
    |x: char| is_space(x)
}

/// The characters that are not white space.
pub open spec fn non_spaces() -> spec_fn(char) -> bool {
    |x: char| !is_space(x)
}

/// The index of the first character of which `p` holds; the length if there
/// is none.
pub open spec fn find(s: Text, p: spec_fn(char) -> bool) -> nat
    decreases s.len(),
{
    if s.len() == 0 || p(s[0]) {
        0
    } else {
        1 + find(s.skip(1), p)
    }
}

/// Does some character of `s` satisfy `p`?
pub open spec fn occurs(s: Text, p: spec_fn(char) -> bool) -> bool {
    find(s, p) < s.len()
}

/// What `find` finds: nothing before it satisfies `p`, and it does.
pub proof fn find_first(s: Text, p: spec_fn(char) -> bool)
    ensures
        find(s, p) <= s.len(),
        forall|i: int| 0 <= i < find(s, p) ==> !p(#[trigger] s[i]),
        find(s, p) < s.len() ==> p(s[find(s, p) as int]),
    decreases s.len(),
{
    if s.len() == 0 || p(s[0]) {
    } else {
        let t = s.skip(1);
        find_first(t, p);
        assert forall|i: int| 0 <= i < find(s, p) implies !p(#[trigger] s[i]) by {
            if i > 0 {
                assert(t[i - 1] == s[i]);
            }
        }
    }
}

/// An index with nothing satisfying `p` before it, at which `p` holds or the
/// text ends, is the one `find` finds.
pub proof fn find_unique(s: Text, p: spec_fn(char) -> bool, k: int)
    requires
        0 <= k <= s.len(),
        forall|i: int| 0 <= i < k ==> !p(#[trigger] s[i]),
        k < s.len() ==> p(s[k]),
    ensures
        find(s, p) == k,
{
    find_first(s, p);
    let f = find(s, p) as int;
    if f < k {
        assert(!p(s[f]));
    }
    if k < f {
        assert(!p(s[k]));
    }
}

/// A run that ends before a character that ends it is the same with that
/// character and more text behind.
pub proof fn find_before(s: Text, p: spec_fn(char) -> bool, more: Text)
    requires
        more.len() > 0,
        p(more[0]),
    ensures
        find(s + more, p) == find(s, p),
{
    find_first(s, p);
    let t = s + more;
    let k = find(s, p) as int;
    assert forall|i: int| 0 <= i < k implies !p(#[trigger] t[i]) by {
        assert(t[i] == s[i]);
    }
    if k < s.len() {
        assert(t[k] == s[k]);
    } else {
        assert(t[k] == more[0]);
    }
    find_unique(t, p, k);
}

/// The index after the last character of which `p` holds; 0 if there is none.
pub open spec fn find_last(s: Text, p: spec_fn(char) -> bool) -> nat
    decreases s.len(),
{
    if s.len() == 0 {
        0
    } else if p(s.last()) {
        s.len()
    } else {
        find_last(s.drop_last(), p)
    }
}

/// What `find_last` finds: nothing from it on satisfies `p`, and the character
/// before it does.
pub proof fn find_last_last(s: Text, p: spec_fn(char) -> bool)
    ensures
        find_last(s, p) <= s.len(),
        forall|i: int| find_last(s, p) <= i < s.len() ==> !p(#[trigger] s[i]),
        find_last(s, p) > 0 ==> p(s[find_last(s, p) - 1]),
    decreases s.len(),
{
    if s.len() == 0 || p(s.last()) {
    } else {
        let t = s.drop_last();
        find_last_last(t, p);
        assert forall|i: int| find_last(s, p) <= i < s.len() implies !p(#[trigger] s[i]) by {
            if i < s.len() - 1 {
                assert(t[i] == s[i]);
            }
        }
    }
}

/// Only one index fits what `find_last` finds.
pub proof fn find_last_unique(s: Text, p: spec_fn(char) -> bool, k: int)
    requires
        0 <= k <= s.len(),
        forall|i: int| k <= i < s.len() ==> !p(#[trigger] s[i]),
        k > 0 ==> p(s[k - 1]),
    ensures
        find_last(s, p) == k,
{
    find_last_last(s, p);
    let f = find_last(s, p) as int;
    if f < k {
        assert(!p(s[k - 1]));
    }
    if k < f {
        assert(!p(s[f - 1]));
    }
}

/// The index of the first `c` at or after `from`, relative to `from`.
pub fn find_char(v: &Vec<char>, from: usize, c: char) -> (r: usize)
    requires
        from <= v.len(),
    ensures
        from <= r <= v.len(),
        r - from == find(v@.skip(from as int), chr(c)),
        r < v.len() <==> occurs(v@.skip(from as int), chr(c)),
        r < v.len() ==> v@[r as int] == c,
{
    let ghost s = v@.skip(from as int);
    let mut i: usize = from;
    while i < v.len() && v[i] != c
        invariant
            from <= i <= v.len(),
            s == v@.skip(from as int),
            forall|j: int| 0 <= j < i - from ==> s[j] != c,
        decreases v.len() - i,
    {
        assert(s[i - from] == v@[i as int]);
        i = i + 1;
    }
    proof {
        if i < v.len() {
            assert(s[i - from] == v@[i as int]);
        }
        find_unique(s, chr(c), i - from);
    }
    i
}

/// The position of the first `c` of a string, if it has one.
pub fn position(s: &str, c: char) -> (r: Option<usize>)
    ensures
        match r {
            Some(k) => occurs(s@, chr(c)) && k == find(s@, chr(c)),
            None => !occurs(s@, chr(c)),
        },
{
    let v = chars(s);
    assert(v@.skip(0) =~= v@);
    let k = find_char(&v, 0, c);
    if k < v.len() {
        Some(k)
    } else {
        None
    }
}

/// Does the string hold the character?
pub fn contains_char(s: &str, c: char) -> (r: bool)
    ensures
        r == occurs(s@, chr(c)),
{
    position(s, c).is_some()
}

/// The text before the first `c` and the text after it.
pub open spec fn cut(s: Text, c: char) -> Option<(Text, Text)> {
    let k = find(s, chr(c)) as int;
    if k < s.len() {
        Some((s.take(k), s.skip(k + 1)))
    } else {
        None
    }
}

/// `split_once`: the parts before and after the first `c`.
pub fn split_once<'a>(s: &'a str, c: char) -> (r: Option<(&'a str, &'a str)>)
    ensures
        match r {
            Some((a, b)) => cut(s@, c) == Some((a@, b@)),
            None => cut(s@, c) is None,
        },
{
    match position(s, c) {
        Some(k) => {
            let n = s.unicode_len();
            let a = s.substring_char(0, k);
            let b = s.substring_char(k + 1, n);
            assert(a@ =~= s@.take(k as int));
            assert(b@ =~= s@.skip(k + 1));
            Some((a, b))
        },
        None => None,
    }
}

/// The text before the last `c` and the text after it.
pub open spec fn cut_last(s: Text, c: char) -> Option<(Text, Text)> {
    let k = find_last(s, chr(c)) as int;
    if k > 0 {
        Some((s.take(k - 1), s.skip(k)))
    } else {
        None
    }
}

/// `rsplit_once`: the parts before and after the last `c`.
pub fn rsplit_once<'a>(s: &'a str, c: char) -> (r: Option<(&'a str, &'a str)>)
    ensures
        match r {
            Some((a, b)) => cut_last(s@, c) == Some((a@, b@)),
            None => cut_last(s@, c) is None,
        },
{
    let v = chars(s);
    let mut i: usize = v.len();
    while i > 0 && v[i - 1] != c
        invariant
            i <= v.len(),
            forall|j: int| i <= j < v.len() ==> v@[j] != c,
        decreases i,
    {
        i = i - 1;
    }
    proof {
        find_last_unique(v@, chr(c), i as int);
    }
    if i > 0 {
        let n = s.unicode_len();
        let a = s.substring_char(0, i - 1);
        let b = s.substring_char(i, n);
        assert(a@ =~= s@.take(i - 1));
        assert(b@ =~= s@.skip(i as int));
        Some((a, b))
    } else {
        None
    }
}

// ---- trimming -------------------------------------------------------------------

/// Leading white space removed.
pub open spec fn trimmed_start(s: Text) -> Text {
    s.skip(find(s, non_spaces()) as int)
}

/// Trailing white space removed.
pub open spec fn trimmed_end(s: Text) -> Text {
    s.take(find_last(s, non_spaces()) as int)
}

/// White space removed at both ends.
pub open spec fn trimmed(s: Text) -> Text {
    trimmed_end(trimmed_start(s))
}

/// `trim_start`.
pub fn trim_start<'a>(s: &'a str) -> (r: &'a str)
    ensures
        r@ == trimmed_start(s@),
{
    let v = chars(s);
    let mut i: usize = 0;
    while i < v.len() && space(v[i])
        invariant
            i <= v.len(),
            forall|j: int| 0 <= j < i ==> is_space(v@[j]),
        decreases v.len() - i,
    {
        i = i + 1;
    }
    proof {
        find_unique(v@, non_spaces(), i as int);
    }
    let n = s.unicode_len();
    let r = s.substring_char(i, n);
    assert(r@ =~= s@.skip(i as int));
    r
}

/// `trim_end`.
pub fn trim_end<'a>(s: &'a str) -> (r: &'a str)
    ensures
        r@ == trimmed_end(s@),
{
    let v = chars(s);
    let mut i: usize = v.len();
    while i > 0 && space(v[i - 1])
        invariant
            i <= v.len(),
            forall|j: int| i <= j < v.len() ==> is_space(v@[j]),
        decreases i,
    {
        i = i - 1;
    }
    proof {
        find_last_unique(v@, non_spaces(), i as int);
    }
    let r = s.substring_char(0, i);
    assert(r@ =~= s@.take(i as int));
    r
}

/// `trim`.
pub fn trim<'a>(s: &'a str) -> (r: &'a str)
    ensures
        r@ == trimmed(s@),
{
    trim_end(trim_start(s))
}

// ---- splitting --------------------------------------------------------------------

/// The words of a text: its maximal runs of characters that are not white
/// space.
pub open spec fn words(s: Text) -> Seq<Text>
    decreases s.len(),
{
    let t = trimmed_start(s);
    if t.len() == 0 {
        seq![]
    } else {
        let k = find(t, spaces()) as int;
        if 0 < k <= t.len() && t.len() <= s.len() {
            seq![t.take(k)] + words(t.skip(k))
        } else {
            seq![]
        }
    }
}

/// `split_whitespace`: the words of a string, in order.
pub fn split_words(s: &str) -> (r: Vec<String>)
    ensures
        texts(r@) == words(s@),
{
    let v = chars(s);
    let mut out: Vec<String> = Vec::new();
    let mut i: usize = 0;
    assert(v@.skip(0) =~= v@);
    assert(texts(out@) + words(v@) =~= words(v@));
    loop
        invariant
            i <= v.len(),
            v@ == s@,
            texts(out@) + words(v@.skip(i as int)) == words(s@),
        decreases v.len() - i,
    {
        let ghost rest = v@.skip(i as int);
        let mut a: usize = i;
        while a < v.len() && space(v[a])
            invariant
                i <= a <= v.len(),
                rest == v@.skip(i as int),
                forall|j: int| 0 <= j < a - i ==> is_space(rest[j]),
            decreases v.len() - a,
        {
            assert(rest[a - i] == v@[a as int]);
            a = a + 1;
        }
        proof {
            if a < v.len() {
                assert(rest[a - i] == v@[a as int]);
            }
            find_unique(rest, non_spaces(), a - i);
            assert(trimmed_start(rest) =~= v@.skip(a as int));
        }
        if a == v.len() {
            assert(words(rest) =~= seq![]);
            assert(texts(out@) + words(rest) =~= texts(out@));
            return out;
        }
        let ghost t = v@.skip(a as int);
        let mut b: usize = a;
        while b < v.len() && !space(v[b])
            invariant
                a <= b <= v.len(),
                t == v@.skip(a as int),
                forall|j: int| 0 <= j < b - a ==> !is_space(t[j]),
            decreases v.len() - b,
        {
            assert(t[b - a] == v@[b as int]);
            b = b + 1;
        }
        proof {
            if b < v.len() {
                assert(t[b - a] == v@[b as int]);
            }
            find_unique(t, spaces(), b - a);
            assert(t[0] == v@[a as int]);
            assert(t.skip(b - a) =~= v@.skip(b as int));
            assert(t.take(b - a) =~= v@.subrange(a as int, b as int));
        }
        let w = string_of(&v, a, b);
        let ghost old_out = out@;
        out.push(w);
        proof {
            assert(texts(out@) =~= texts(old_out).push(w@));
            assert(words(rest) == seq![t.take(b - a)] + words(t.skip(b - a)));
            assert(texts(out@) + words(v@.skip(b as int)) =~= texts(old_out) + words(rest));
        }
        i = b;
    }
}

/// The pieces of a text between the separators `c`; one more than there are
/// separators.
pub open spec fn pieces(s: Text, c: char) -> Seq<Text>
    decreases s.len(),
{
    let k = find(s, chr(c)) as int;
    if 0 <= k < s.len() {
        seq![s.take(k)] + pieces(s.skip(k + 1), c)
    } else {
        seq![s]
    }
}

/// `split` on a character.
pub fn split(s: &str, c: char) -> (r: Vec<String>)
    ensures
        texts(r@) == pieces(s@, c),
{
    let v = chars(s);
    let mut out: Vec<String> = Vec::new();
    let mut i: usize = 0;
    assert(v@.skip(0) =~= v@);
    assert(texts(out@) + pieces(v@, c) =~= pieces(v@, c));
    loop
        invariant
            i <= v.len(),
            v@ == s@,
            texts(out@) + pieces(v@.skip(i as int), c) == pieces(s@, c),
        decreases v.len() - i,
    {
        let ghost rest = v@.skip(i as int);
        let k = find_char(&v, i, c);
        let w = string_of(&v, i, k);
        let ghost old_out = out@;
        out.push(w);
        proof {
            assert(texts(out@) =~= texts(old_out).push(w@));
            assert(w@ =~= rest.take(k - i));
        }
        if k == v.len() {
            proof {
                assert(w@ =~= rest);
                assert(texts(out@) =~= texts(old_out) + pieces(rest, c));
            }
            return out;
        }
        proof {
            assert(rest.skip(k - i + 1) =~= v@.skip(k + 1));
            assert(texts(out@) + pieces(v@.skip(k + 1), c) =~= texts(old_out) + pieces(rest, c));
        }
        i = k + 1;
    }
}

/// Without a final carriage return.
pub open spec fn no_cr(s: Text) -> Text {
    if s.len() > 0 && s.last() == '\r' {
        s.drop_last()
    } else {
        s
    }
}

/// The lines of a text: the parts that line feeds end, without a final
/// carriage return. A last part that no line feed ends is a line unless it is
/// empty.
pub open spec fn text_lines(s: Text) -> Seq<Text>
    decreases s.len(),
{
    let k = find(s, chr('\n')) as int;
    if 0 <= k < s.len() {
        seq![no_cr(s.take(k))] + text_lines(s.skip(k + 1))
    } else if s.len() > 0 {
        seq![s]
    } else {
        seq![]
    }
}

/// `str::lines`.
pub fn lines(s: &str) -> (r: Vec<String>)
    ensures
        texts(r@) == text_lines(s@),
{
    let v = chars(s);
    let mut out: Vec<String> = Vec::new();
    let mut i: usize = 0;
    assert(v@.skip(0) =~= v@);
    assert(texts(out@) + text_lines(v@) =~= text_lines(v@));
    loop
        invariant
            i <= v.len(),
            v@ == s@,
            texts(out@) + text_lines(v@.skip(i as int)) == text_lines(s@),
        decreases v.len() - i,
    {
        let ghost rest = v@.skip(i as int);
        let k = find_char(&v, i, '\n');
        let ghost old_out = out@;
        if k == v.len() {
            if i < k {
                let w = string_of(&v, i, k);
                out.push(w);
                proof {
                    assert(w@ =~= rest);
                    assert(texts(out@) =~= texts(old_out) + text_lines(rest));
                }
            } else {
                assert(texts(out@) =~= texts(old_out) + text_lines(rest));
            }
            return out;
        }
        let end: usize = if i < k && v[k - 1] == '\r' {
            k - 1
        } else {
            k
        };
        let w = string_of(&v, i, end);
        out.push(w);
        proof {
            assert(texts(out@) =~= texts(old_out).push(w@));
            let line = rest.take(k - i);
            if i < k {
                assert(line.last() == v@[k - 1]);
            }
            assert(w@ =~= no_cr(line));
            assert(rest.skip(k - i + 1) =~= v@.skip(k + 1));
            assert(texts(out@) + text_lines(v@.skip(k + 1)) =~= texts(old_out) + text_lines(rest));
        }
        i = k + 1;
    }
}

// ---- facts about trimming and cutting -------------------------------------------

/// Does `c` not occur?
pub open spec fn lacks(s: Text, c: char) -> bool {
    forall|i: int| 0 <= i < s.len() ==> #[trigger] s[i] != c
}

/// No white space at either end.
pub open spec fn is_trimmed(s: Text) -> bool {
    s.len() == 0 || (!is_space(s[0]) && !is_space(s.last()))
}

/// Trimming leaves no white space at the ends, and takes nothing else.
pub proof fn trimmed_is_trimmed(s: Text)
    ensures
        is_trimmed(trimmed(s)),
        trimmed_start(s).len() == 0 || !is_space(trimmed_start(s)[0]),
        forall|i: int|
            0 <= i < trimmed(s).len() ==> s.contains(#[trigger] trimmed(s)[i]),
        forall|i: int|
            0 <= i < trimmed_start(s).len() ==> s.contains(#[trigger] trimmed_start(s)[i]),
        trimmed_start(s).len() > 0 ==> s.len() > 0 && trimmed_start(s).last() == s.last(),
{
    let p = non_spaces();
    find_first(s, p);
    let a = find(s, p) as int;
    let t = trimmed_start(s);
    find_last_last(t, p);
    let b = find_last(t, p) as int;
    assert forall|i: int| 0 <= i < t.len() implies s.contains(#[trigger] t[i]) by {
        assert(t[i] == s[a + i]);
    }
    assert forall|i: int| 0 <= i < trimmed(s).len() implies s.contains(
        #[trigger] trimmed(s)[i],
    ) by {
        assert(trimmed(s)[i] == t[i]);
    }
    if t.len() > 0 {
        assert(t[0] == s[a]);
        assert(p(s[a]));
        assert(t.last() == s.last());
    }
    if b > 0 {
        assert(p(t[b - 1]));
        assert(trimmed(s).last() == t[b - 1]);
        assert(trimmed(s)[0] == t[0]);
    }
}

/// Where there is nothing to trim, trimming changes nothing.
pub proof fn trimmed_keeps(s: Text)
    requires
        is_trimmed(s),
    ensures
        trimmed(s) == s,
        trimmed_start(s) == s,
{
    let p = non_spaces();
    find_unique(s, p, 0);
    assert(trimmed_start(s) =~= s);
    find_last_unique(s, p, s.len() as int);
    assert(trimmed(s) =~= s);
}

/// Is the text nothing but white space?
pub open spec fn is_blank(s: Text) -> bool {
    forall|i: int| 0 <= i < s.len() ==> is_space(#[trigger] s[i])
}

/// What trimming takes at the two ends: nothing but white space.
pub proof fn trimmed_parts(s: Text) -> (r: (Text, Text))
    ensures
        s == r.0 + trimmed(s) + r.1,
        is_blank(r.0),
        is_blank(r.1),
{
    let p = non_spaces();
    find_first(s, p);
    let a = find(s, p) as int;
    let t = trimmed_start(s);
    find_last_last(t, p);
    let b = find_last(t, p) as int;
    let before = s.take(a);
    let after = t.skip(b);
    assert forall|i: int| 0 <= i < before.len() implies is_space(#[trigger] before[i]) by {
        assert(!p(s[i]));
    }
    assert forall|i: int| 0 <= i < after.len() implies is_space(#[trigger] after[i]) by {
        assert(!p(t[b + i]));
    }
    assert(s =~= before + trimmed(s) + after);
    (before, after)
}

/// Trimming takes the white space around a text that has none at its ends.
pub proof fn trimmed_is_the_rest(before: Text, s: Text, after: Text)
    requires
        is_blank(before),
        is_blank(after),
        is_trimmed(s),
        s.len() > 0,
    ensures
        trimmed(before + s + after) == s,
{
    let p = non_spaces();
    let all = before + s + after;
    let n = before.len() as int;
    assert forall|i: int| 0 <= i < n implies !p(#[trigger] all[i]) by {
        assert(all[i] == before[i]);
    }
    assert(all[n] == s[0]);
    find_unique(all, p, n);
    let t = trimmed_start(all);
    assert(t =~= s + after);
    let m = s.len() as int;
    assert forall|i: int| m <= i < t.len() implies !p(#[trigger] t[i]) by {
        assert(t[i] == after[i - m]);
    }
    assert(t[m - 1] == s.last());
    find_last_unique(t, p, m);
    assert(trimmed(all) =~= s);
}

/// The words of two texts with a space between them are those of the one and
/// then those of the other.
pub proof fn words_join(a: Text, b: Text)
    ensures
        words(a + (seq![' '] + b)) == words(a) + words(b),
    decreases a.len(),
{
    let more = seq![' '] + b;
    let both = a + more;
    let t = trimmed_start(a);
    find_first(a, non_spaces());
    let f = find(a, non_spaces()) as int;
    if t.len() == 0 {
        find_first(b, non_spaces());
        let g = find(b, non_spaces()) as int;
        let n = a.len() + 1;
        assert forall|i: int| 0 <= i < n + g implies !non_spaces()(#[trigger] both[i]) by {
            if i < a.len() {
                assert(both[i] == a[i]);
            } else if i >= n {
                assert(both[i] == b[i - n]);
            }
        }
        if g < b.len() {
            assert(both[n + g] == b[g]);
        }
        find_unique(both, non_spaces(), n + g);
        assert(trimmed_start(both) =~= trimmed_start(b));
        assert(words(a) + words(b) =~= words(b));
    } else {
        assert forall|i: int| 0 <= i < f implies !non_spaces()(#[trigger] both[i]) by {
            assert(both[i] == a[i]);
        }
        assert(both[f] == a[f]);
        find_unique(both, non_spaces(), f);
        let u = trimmed_start(both);
        assert(u =~= t + more);
        find_first(t, spaces());
        find_before(t, spaces(), more);
        let k = find(t, spaces()) as int;
        assert(t[0] == a[f]);
        assert(u.take(k) =~= t.take(k));
        assert(u.skip(k) =~= t.skip(k) + more);
        words_join(t.skip(k), b);
        assert(words(both) =~= words(a) + words(b));
    }
}

/// White space holds no words.
pub proof fn blank_has_no_words(s: Text)
    requires
        is_blank(s),
    ensures
        words(s).len() == 0,
{
    assert forall|i: int| 0 <= i < s.len() implies !non_spaces()(#[trigger] s[i]) by {}
    find_unique(s, non_spaces(), s.len() as int);
}

/// Cutting at a character that does not occur before.
pub proof fn cut_at(a: Text, c: char, b: Text)
    requires
        lacks(a, c),
    ensures
        cut(a + seq![c] + b, c) == Some((a, b)),
{
    let s = a + seq![c] + b;
    assert forall|i: int| 0 <= i < a.len() implies !chr(c)(#[trigger] s[i]) by {
        assert(s[i] == a[i]);
    }
    find_unique(s, chr(c), a.len() as int);
    assert(s.take(a.len() as int) =~= a);
    assert(s.skip(a.len() as int + 1) =~= b);
}

/// What stands before the first `c` lacks it.
pub proof fn cut_lacks(s: Text, c: char)
    ensures
        match cut(s, c) {
            Some((a, b)) => lacks(a, c) && s =~= a + seq![c] + b,
            None => true,
        },
{
    find_first(s, chr(c));
    let k = find(s, chr(c)) as int;
    if k < s.len() {
        assert forall|i: int| 0 <= i < k implies #[trigger] s.take(k)[i] != c by {
            assert(!chr(c)(s[i]));
        }
        assert(chr(c)(s[k]));
    }
}

// ---- prefixes, suffixes and parts -----------------------------------------------

pub open spec fn begins(s: Text, p: Text) -> bool {
    p.len() <= s.len() && s.take(p.len() as int) == p
}

pub open spec fn ends(s: Text, p: Text) -> bool {
    p.len() <= s.len() && s.skip(s.len() - p.len()) == p
}

/// Does `p` occur somewhere in `s`?
pub open spec fn within(s: Text, p: Text) -> bool {
    exists|i: int| 0 <= i <= s.len() - p.len() && #[trigger] s.subrange(i, i + p.len()) == p
}

/// `s` without the prefix `p`, if it begins with it.
pub open spec fn after_prefix(s: Text, p: Text) -> Option<Text> {
    if begins(s, p) {
        Some(s.skip(p.len() as int))
    } else {
        None
    }
}

/// `s` without the suffix `p`, if it ends with it.
pub open spec fn before_suffix(s: Text, p: Text) -> Option<Text> {
    if ends(s, p) {
        Some(s.take(s.len() - p.len()))
    } else {
        None
    }
}

/// Do the characters of `p` stand in `v` from index `at` on?
pub fn stands_at(v: &Vec<char>, at: usize, p: &Vec<char>) -> (r: bool)
    requires
        at + p.len() <= v.len(),
    ensures
        r == (v@.subrange(at as int, at + p.len()) == p@),
{
    let mut i: usize = 0;
    while i < p.len()
        invariant
            at + p.len() <= v.len(),
            i <= p.len(),
            forall|j: int| 0 <= j < i ==> v@[at + j] == p@[j],
        decreases p.len() - i,
    {
        if v[at + i] != p[i] {
            assert(v@.subrange(at as int, at + p.len())[i as int] != p@[i as int]);
            return false;
        }
        i = i + 1;
    }
    assert(v@.subrange(at as int, at + p.len()) =~= p@);
    true
}

/// `strip_prefix`.
pub fn strip_prefix<'a>(s: &'a str, p: &str) -> (r: Option<&'a str>)
    ensures
        match r {
            Some(t) => after_prefix(s@, p@) == Some(t@),
            None => after_prefix(s@, p@) is None,
        },
{
    let v = chars(s);
    let q = chars(p);
    if q.len() <= v.len() && stands_at(&v, 0, &q) {
        assert(v@.subrange(0, q.len() as int) =~= s@.take(q.len() as int));
        let n = s.unicode_len();
        let r = s.substring_char(q.len(), n);
        assert(r@ =~= s@.skip(q.len() as int));
        Some(r)
    } else {
        proof {
            if q.len() <= v.len() {
                assert(v@.subrange(0, q.len() as int) =~= s@.take(q.len() as int));
            }
        }
        None
    }
}

/// `strip_suffix`.
pub fn strip_suffix<'a>(s: &'a str, p: &str) -> (r: Option<&'a str>)
    ensures
        match r {
            Some(t) => before_suffix(s@, p@) == Some(t@),
            None => before_suffix(s@, p@) is None,
        },
{
    let v = chars(s);
    let q = chars(p);
    if q.len() <= v.len() && stands_at(&v, v.len() - q.len(), &q) {
        assert(v@.subrange(v.len() - q.len(), v.len() as int) =~= s@.skip(s@.len() - p@.len()));
        let r = s.substring_char(0, v.len() - q.len());
        assert(r@ =~= s@.take(s@.len() - p@.len()));
        Some(r)
    } else {
        proof {
            if q.len() <= v.len() {
                assert(v@.subrange(v.len() - q.len(), v.len() as int) =~= s@.skip(
                    s@.len() - p@.len(),
                ));
            }
        }
        None
    }
}

/// `ends_with`.
pub fn ends_with(s: &str, p: &str) -> (r: bool)
    ensures
        r == ends(s@, p@),
{
    strip_suffix(s, p).is_some()
}

/// Does the string begin with the character?
pub fn starts_with_char(s: &str, c: char) -> (r: bool)
    ensures
        r == (s@.len() > 0 && s@[0] == c),
{
    s.unicode_len() > 0 && s.get_char(0) == c
}

/// `strip_prefix` with a character.
pub fn strip_char<'a>(s: &'a str, c: char) -> (r: Option<&'a str>)
    ensures
        match r {
            Some(t) => s@.len() > 0 && s@[0] == c && t@ == s@.skip(1),
            None => !(s@.len() > 0 && s@[0] == c),
        },
{
    if starts_with_char(s, c) {
        let n = s.unicode_len();
        let r = s.substring_char(1, n);
        assert(r@ =~= s@.skip(1));
        Some(r)
    } else {
        None
    }
}

/// `contains` with a string.
pub fn contains(s: &str, p: &str) -> (r: bool)
    ensures
        r == within(s@, p@),
{
    let v = chars(s);
    let q = chars(p);
    if q.len() > v.len() {
        return false;
    }
    if q.len() == 0 {
        assert(s@.subrange(0int, 0int + p@.len()) =~= p@);
        return true;
    }
    let end: usize = v.len() - q.len() + 1;
    let mut i: usize = 0;
    while i < end
        invariant
            v@ == s@,
            q@ == p@,
            q.len() <= v.len(),
            end == v.len() - q.len() + 1,
            i <= end,
            forall|j: int| 0 <= j < i ==> #[trigger] s@.subrange(j, j + p@.len()) != p@,
        decreases end - i,
    {
        if stands_at(&v, i, &q) {
            assert(s@.subrange(i as int, i + p@.len()) == p@);
            return true;
        }
        i = i + 1;
    }
    false
}

/// The text before the first occurrence of `p` and the text after it.
pub open spec fn cut_text(s: Text, p: Text) -> Option<(Text, Text)>
    decreases s.len(),
{
    if begins(s, p) {
        Some((seq![], s.skip(p.len() as int)))
    } else if s.len() == 0 {
        None
    } else {
        match cut_text(s.skip(1), p) {
            Some((a, b)) => Some((seq![s[0]] + a, b)),
            None => None,
        }
    }
}

/// `split_once` with a string.
pub fn split_once_text<'a>(s: &'a str, p: &str) -> (r: Option<(&'a str, &'a str)>)
    ensures
        match r {
            Some((a, b)) => cut_text(s@, p@) == Some((a@, b@)),
            None => cut_text(s@, p@) is None,
        },
{
    let v = chars(s);
    let q = chars(p);
    let mut i: usize = 0;
    assert(v@.skip(0) =~= v@);
    proof {
        match cut_text(s@, p@) {
            Some((a, b)) => {
                assert(s@.take(0) + a =~= a);
            },
            None => {},
        }
    }
    while q.len() <= v.len() - i
        invariant
            v@ == s@,
            q@ == p@,
            i <= v.len(),
            cut_text(s@, p@) == (match cut_text(s@.skip(i as int), p@) {
                Some((a, b)) => Some((s@.take(i as int) + a, b)),
                None => None,
            }),
        decreases v.len() - i,
    {
        let ghost rest = s@.skip(i as int);
        if stands_at(&v, i, &q) {
            proof {
                assert(rest.take(p@.len() as int) =~= v@.subrange(i as int, i + q.len()));
                assert(s@.take(i as int) + Seq::<char>::empty() =~= s@.take(i as int));
                assert(rest.skip(p@.len() as int) =~= s@.skip(i + q.len()));
            }
            let n = s.unicode_len();
            let a = s.substring_char(0, i);
            let b = s.substring_char(i + q.len(), n);
            assert(a@ =~= s@.take(i as int));
            assert(b@ =~= s@.skip(i + q.len()));
            return Some((a, b));
        }
        proof {
            assert(rest.take(p@.len() as int) =~= v@.subrange(i as int, i + q.len()));
            assert(!begins(rest, p@));
        }
        if i == v.len() {
            return None;
        }
        proof {
            assert(rest.skip(1) =~= s@.skip(i + 1));
            match cut_text(s@.skip(i + 1), p@) {
                Some((a, b)) => {
                    assert(s@.take(i as int) + (seq![rest[0]] + a) =~= s@.take(i + 1) + a);
                },
                None => {},
            }
        }
        i = i + 1;
    }
    proof {
        no_room_for(s@.skip(i as int), p@);
    }
    None
}

/// A text does not occur in a shorter one.
proof fn no_room_for(s: Text, p: Text)
    requires
        s.len() < p.len(),
    ensures
        cut_text(s, p) is None,
    decreases s.len(),
{
    if s.len() > 0 {
        no_room_for(s.skip(1), p);
    }
}

// ---- letter case ----------------------------------------------------------------

/// ASCII letters in lower case.
pub open spec fn lower(s: Text) -> Text {
    Seq::new(s.len(), |i: int| lower_char(s[i]))
}

/// ASCII letters in upper case.
pub open spec fn upper(s: Text) -> Text {
    Seq::new(s.len(), |i: int| upper_char(s[i]))
}

/// `to_ascii_lowercase`.
pub fn to_lower(s: &str) -> (r: String)
    ensures
        r@ == lower(s@),
{
    let v = chars(s);
    let mut out = String::new();
    let mut i: usize = 0;
    while i < v.len()
        invariant
            i <= v.len(),
            out@ == lower(v@.take(i as int)),
        decreases v.len() - i,
    {
        out.push(to_lower_char(v[i]));
        i = i + 1;
        assert(out@ =~= lower(v@.take(i as int)));
    }
    assert(v@.take(v.len() as int) =~= v@);
    out
}

/// `to_ascii_uppercase`.
pub fn to_upper(s: &str) -> (r: String)
    ensures
        r@ == upper(s@),
{
    let v = chars(s);
    let mut out = String::new();
    let mut i: usize = 0;
    while i < v.len()
        invariant
            i <= v.len(),
            out@ == upper(v@.take(i as int)),
        decreases v.len() - i,
    {
        out.push(to_upper_char(v[i]));
        i = i + 1;
        assert(out@ =~= upper(v@.take(i as int)));
    }
    assert(v@.take(v.len() as int) =~= v@);
    out
}

/// `eq_ignore_ascii_case`.
pub fn same_ignore_case(a: &str, b: &str) -> (r: bool)
    ensures
        r == (lower(a@) == lower(b@)),
{
    let x = to_lower(a);
    let y = to_lower(b);
    same(x.as_str(), y.as_str())
}

// ---- composing ------------------------------------------------------------------

/// A copy of a string.
pub fn owned(s: &str) -> (r: String)
    ensures
        r@ == s@,
{
    s.to_owned()
}

/// Two strings in a row.
pub fn cat2(a: &str, b: &str) -> (r: String)
    ensures
        r@ == a@ + b@,
{
    let mut out = owned(a);
    out.append(b);
    out
}

/// Three strings in a row.
pub fn cat3(a: &str, b: &str, c: &str) -> (r: String)
    ensures
        r@ == a@ + b@ + c@,
{
    let mut out = owned(a);
    out.append(b);
    out.append(c);
    out
}

/// Five strings in a row.
pub fn cat5(a: &str, b: &str, c: &str, d: &str, e: &str) -> (r: String)
    ensures
        r@ == a@ + b@ + c@ + d@ + e@,
{
    let mut out = cat3(a, b, c);
    out.append(d);
    out.append(e);
    out
}

/// The strings with `sep` between each two of them.
pub open spec fn joined(v: Seq<Text>, sep: Text) -> Text
    decreases v.len(),
{
    if v.len() == 0 {
        seq![]
    } else if v.len() == 1 {
        v[0]
    } else {
        joined(v.drop_last(), sep) + sep + v.last()
    }
}

/// `join`.
pub fn join(v: &Vec<String>, sep: &str) -> (r: String)
    ensures
        r@ == joined(texts(v@), sep@),
{
    let mut out = String::new();
    let mut i: usize = 0;
    while i < v.len()
        invariant
            i <= v.len(),
            out@ == joined(texts(v@).take(i as int), sep@),
        decreases v.len() - i,
    {
        if i > 0 {
            out.append(sep);
        }
        out.append(v[i].as_str());
        proof {
            let t = texts(v@).take(i + 1);
            assert(t.drop_last() =~= texts(v@).take(i as int));
            assert(t.last() == v@[i as int]@);
            if i == 0 {
                assert(out@ =~= t[0]);
            }
        }
        i = i + 1;
    }
    assert(texts(v@).take(v.len() as int) =~= texts(v@));
    out
}

/// Every `from` replaced by `to`.
pub open spec fn replaced(s: Text, from: char, to: char) -> Text {
    Seq::new(s.len(), |i: int| if s[i] == from { to } else { s[i] })
}

/// `replace` of one character by another.
pub fn replace_char(s: &str, from: char, to: char) -> (r: String)
    ensures
        r@ == replaced(s@, from, to),
{
    let v = chars(s);
    let mut out = String::new();
    let mut i: usize = 0;
    while i < v.len()
        invariant
            i <= v.len(),
            out@ == replaced(v@.take(i as int), from, to),
        decreases v.len() - i,
    {
        if v[i] == from {
            out.push(to);
        } else {
            out.push(v[i]);
        }
        i = i + 1;
        assert(out@ =~= replaced(v@.take(i as int), from, to));
    }
    assert(v@.take(v.len() as int) =~= v@);
    out
}

/// The characters other than `c`.
pub open spec fn without(s: Text, c: char) -> Text
    decreases s.len(),
{
    if s.len() == 0 {
        seq![]
    } else if s.last() == c {
        without(s.drop_last(), c)
    } else {
        without(s.drop_last(), c).push(s.last())
    }
}

/// `replace` of one character by nothing.
pub fn remove_char(s: &str, c: char) -> (r: String)
    ensures
        r@ == without(s@, c),
{
    let v = chars(s);
    let mut out = String::new();
    let mut i: usize = 0;
    while i < v.len()
        invariant
            i <= v.len(),
            out@ == without(v@.take(i as int), c),
        decreases v.len() - i,
    {
        assert(v@.take(i + 1).drop_last() =~= v@.take(i as int));
        if v[i] != c {
            out.push(v[i]);
        }
        i = i + 1;
    }
    assert(v@.take(v.len() as int) =~= v@);
    out
}

/// `n` spaces.
pub open spec fn blanks(n: nat) -> Text {
    Seq::new(n, |i: int| ' ')
}

/// Filled up with spaces on the right to at least `width` characters.
pub open spec fn padded(s: Text, width: nat) -> Text {
    if s.len() < width {
        s + blanks((width - s.len()) as nat)
    } else {
        s
    }
}

/// A left-aligned column of a table.
pub fn pad(s: &str, width: usize) -> (r: String)
    ensures
        r@ == padded(s@, width as nat),
{
    let mut out = owned(s);
    let n = s.unicode_len();
    let mut i: usize = n;
    while i < width
        invariant
            n == s@.len(),
            n <= i,
            i <= width || i == n,
            out@ == s@ + blanks((i - n) as nat),
        decreases width - i,
    {
        out.push(' ');
        i = i + 1;
        assert(out@ =~= s@ + blanks((i - n) as nat));
    }
    assert(out@ =~= padded(s@, width as nat));
    out
}

// ---- numbers --------------------------------------------------------------------

/// The value of a digit in the given radix.
pub open spec fn digit_value(c: char, radix: nat) -> Option<nat> {
    let d: int = if '0' <= c <= '9' {
        c as u32 - 48
    } else if 'a' <= c <= 'z' {
        c as u32 - 87
    } else if 'A' <= c <= 'Z' {
        c as u32 - 55
    } else {
        radix as int
    };
    if d < radix {
        Some(d as nat)
    } else {
        None
    }
}

/// The number that a row of digits writes.
pub open spec fn digits(s: Text, radix: nat) -> Option<nat>
    decreases s.len(),
{
    if s.len() == 0 {
        Some(0)
    } else {
        match (digits(s.drop_last(), radix), digit_value(s.last(), radix)) {
            (Some(n), Some(d)) => Some(n * radix + d),
            _ => None,
        }
    }
}

/// A sign `+` dropped.
pub open spec fn unsigned(s: Text) -> Text {
    if s.len() > 0 && s[0] == '+' {
        s.skip(1)
    } else {
        s
    }
}

/// The number that a text writes in the given radix, where it is at most
/// `max`. A sign `+` may stand before the digits, of which there is at least
/// one.
pub open spec fn number(s: Text, radix: nat, max: nat) -> Option<nat> {
    let d = unsigned(s);
    if d.len() == 0 {
        None
    } else {
        match digits(d, radix) {
            Some(n) => if n <= max {
                Some(n)
            } else {
                None
            },
            None => None,
        }
    }
}

/// More digits never make the number smaller.
pub proof fn digits_grow(s: Text, radix: nat, i: int)
    requires
        0 <= i <= s.len(),
        radix >= 1,
    ensures
        match (digits(s.take(i), radix), digits(s, radix)) {
            (Some(a), Some(b)) => a <= b,
            (None, b) => b is None,
            _ => true,
        },
    decreases s.len() - i,
{
    if i == s.len() {
        assert(s.take(i) =~= s);
    } else {
        digits_grow(s, radix, i + 1);
        assert(s.take(i + 1).drop_last() =~= s.take(i));
        match digits(s.take(i), radix) {
            Some(a) => {
                assert(a <= a * radix) by (nonlinear_arith)
                    requires
                        radix >= 1,
                ;
            },
            None => {},
        }
    }
}

fn digit_of(c: char, radix: u32) -> (r: Option<u32>)
    requires
        radix <= 36,
    ensures
        match r {
            Some(d) => digit_value(c, radix as nat) == Some(d as nat) && d < radix,
            None => digit_value(c, radix as nat) is None,
        },
{
    let d: u32 = if '0' <= c && c <= '9' {
        c as u32 - 48
    } else if 'a' <= c && c <= 'z' {
        c as u32 - 87
    } else if 'A' <= c && c <= 'Z' {
        c as u32 - 55
    } else {
        radix
    };
    if d < radix {
        Some(d)
    } else {
        None
    }
}

/// `from_str_radix` of an unsigned integer type whose largest value is `max`.
pub fn parse_number(s: &str, radix: u32, max: u64) -> (r: Option<u64>)
    requires
        2 <= radix <= 36,
    ensures
        match r {
            Some(n) => number(s@, radix as nat, max as nat) == Some(n as nat) && n <= max,
            None => number(s@, radix as nat, max as nat) is None,
        },
{
    let v = chars(s);
    let start: usize = if v.len() > 0 && v[0] == '+' {
        1
    } else {
        0
    };
    let ghost d = unsigned(s@);
    assert(d =~= v@.skip(start as int));
    if start == v.len() {
        return None;
    }
    let mut acc: u64 = 0;
    let mut i: usize = start;
    assert(d.take(0) =~= seq![]);
    while i < v.len()
        invariant
            2 <= radix <= 36,
            start <= i <= v.len(),
            start < v.len(),
            d == v@.skip(start as int),
            d == unsigned(s@),
            acc <= max,
            digits(d.take(i - start), radix as nat) == Some(acc as nat),
        decreases v.len() - i,
    {
        proof {
            digits_grow(d, radix as nat, i - start + 1);
            assert(d.take(i - start + 1).drop_last() =~= d.take(i - start));
            assert(d.take(i - start + 1).last() == v@[i as int]);
        }
        match digit_of(v[i], radix) {
            Some(x) => {
                assert(acc as u128 * radix as u128 + x as u128 <= u64::MAX as u128 * 36 + 36)
                    by (nonlinear_arith)
                    requires
                        acc <= u64::MAX,
                        radix <= 36,
                        x < radix,
                ;
                assert(acc * radix == acc as nat * radix as nat) by (nonlinear_arith);
                let next: u128 = acc as u128 * radix as u128 + x as u128;
                if next > max as u128 {
                    return None;
                }
                acc = next as u64;
            },
            None => {
                return None;
            },
        }
        i = i + 1;
    }
    assert(d.take(d.len() as int) =~= d);
    Some(acc)
}

/// The number that a text writes as a signed 32-bit integer.
pub open spec fn signed32(s: Text) -> Option<int> {
    if s.len() > 0 && s[0] == '-' {
        if s.len() == 1 {
            None
        } else {
            match digits(s.skip(1), 10) {
                Some(n) => if n <= 0x8000_0000 {
                    Some(-(n as int))
                } else {
                    None
                },
                None => None,
            }
        }
    } else {
        match number(s, 10, 0x7fff_ffff) {
            Some(n) => Some(n as int),
            None => None,
        }
    }
}

/// `str::parse::<i32>`.
pub fn parse_i32(s: &str) -> (r: Option<i32>)
    ensures
        match r {
            Some(n) => signed32(s@) == Some(n as int),
            None => signed32(s@) is None,
        },
{
    match strip_char(s, '-') {
        Some(t) => {
            // A second sign is no digit.
            if starts_with_char(t, '+') {
                proof {
                    let d = s@.skip(1);
                    digits_grow(d, 10, 1);
                    assert(d.take(1).last() == '+');
                }
                return None;
            }
            match parse_number(t, 10, 0x8000_0000) {
                Some(n) => Some((-(n as i64)) as i32),
                None => None,
            }
        },
        None => match parse_number(s, 10, 0x7fff_ffff) {
            Some(n) => Some(n as i32),
            None => None,
        },
    }
}

/// The character of a decimal digit.
pub open spec fn digit_char(d: nat) -> char {
    ((48 + d) as u32) as char
}

/// A number in decimal.
pub open spec fn decimal(n: nat) -> Text
    decreases n,
{
    if n < 10 {
        seq![digit_char(n)]
    } else {
        decimal(n / 10).push(digit_char(n % 10))
    }
}

/// An integer in decimal, with a sign `-` where it is negative.
pub open spec fn decimal_int(n: int) -> Text {
    if n < 0 {
        seq!['-'] + decimal((-n) as nat)
    } else {
        decimal(n as nat)
    }
}

/// A number in decimal reads back as that number.
pub proof fn decimal_reads_back(n: nat)
    ensures
        digits(decimal(n), 10) == Some(n),
        decimal(n).len() > 0,
        is_digit(decimal(n)[0]),
        unsigned(decimal(n)) == decimal(n),
    decreases n,
{
    let d = decimal(n);
    if n < 10 {
        assert(d.drop_last() =~= seq![]);
        assert(digits(d.drop_last(), 10) == Some(0nat));
    } else {
        decimal_reads_back(n / 10);
        assert(d.drop_last() =~= decimal(n / 10));
        assert(d[0] == decimal(n / 10)[0]);
    }
}

/// A number in decimal has nothing but digits.
pub proof fn decimal_has_digits(n: nat)
    ensures
        forall|i: int| 0 <= i < decimal(n).len() ==> is_digit(#[trigger] decimal(n)[i]),
    decreases n,
{
    if n >= 10 {
        decimal_has_digits(n / 10);
        let d = decimal(n);
        assert forall|i: int| 0 <= i < d.len() implies is_digit(#[trigger] d[i]) by {
            if i < d.len() - 1 {
                assert(d[i] == decimal(n / 10)[i]);
            } else {
                assert(d[i] == digit_char(n % 10));
            }
        }
    }
}

/// A number in decimal.
pub fn dec(n: u64) -> (r: String)
    ensures
        r@ == decimal(n as nat),
    decreases n,
{
    let d = ((48 + (n % 10)) as u8) as char;
    let mut out = if n < 10 {
        String::new()
    } else {
        dec(n / 10)
    };
    out.push(d);
    assert(n < 10 ==> out@ =~= decimal(n as nat));
    out
}

/// An integer in decimal.
pub fn dec_int(n: i64) -> (r: String)
    ensures
        r@ == decimal_int(n as int),
{
    if n < 0 {
        let mut out = String::new();
        out.push('-');
        let m: u64 = if n == i64::MIN {
            0x8000_0000_0000_0000
        } else {
            (-n) as u64
        };
        let d = dec(m);
        out.append(d.as_str());
        assert(out@ =~= decimal_int(n as int));
        out
    } else {
        dec(n as u64)
    }
}

} // verus!
