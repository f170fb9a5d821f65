//! What the operations on texts come to.

use vstd::prelude::*;

use crate::text::{
    after_prefix, before_suffix, begins, chr, cut_last, cut_text, decimal, decimal_reads_back,
    digit_value, digits, ends, find, find_first, find_last_unique, find_unique, is_alpha, is_digit,
    is_space, joined, lacks, lower, lower_char, no_cr, non_spaces, number, pieces, replaced,
    signed32, spaces, text_lines, trimmed_start, unsigned, upper, upper_char, within, without,
    words, Text,
};

verus! {

/// The characters that are white space, the digits, and the letters.
pub proof fn characters_are_of_these_kinds(c: char)
    ensures
        c as u32 <= 127 ==> (is_space(c) <==> c == ' ' || c == '\t' || c == '\n' || c == '\r'
            || c as u32 == 11 || c as u32 == 12),
        c as u32 > 127 && is_space(c) ==> (c as u32 == 0x85 || c as u32 == 0xa0 || c as u32
            == 0x1680 || 0x2000 <= c as u32 <= 0x200a || c as u32 == 0x2028 || c as u32 == 0x2029
            || c as u32 == 0x202f || c as u32 == 0x205f || c as u32 == 0x3000),
        is_digit(c) <==> 48 <= c as u32 <= 57,
        is_alpha(c) <==> 65 <= c as u32 <= 90 || 97 <= c as u32 <= 122,
{
}

/// An ASCII letter changes its case, and nothing else does.
pub proof fn letters_change_their_case(s: Text, i: int)
    requires
        0 <= i < s.len(),
    ensures
        lower(s).len() == s.len() && upper(s).len() == s.len(),
        65 <= s[i] as u32 <= 90 ==> lower(s)[i] as u32 == s[i] as u32 + 32 && upper(s)[i] == s[i],
        97 <= s[i] as u32 <= 122 ==> upper(s)[i] as u32 == s[i] as u32 - 32 && lower(s)[i] == s[i],
        !is_alpha(s[i]) ==> lower(s)[i] == s[i] && upper(s)[i] == s[i],
        lower(upper(s)) == lower(s),
{
    assert(lower(upper(s)) =~= lower(s));
}

/// A text without white space is one word.
pub proof fn a_word_is_one_word(w: Text)
    requires
        w.len() > 0,
        forall|i: int| 0 <= i < w.len() ==> !is_space(#[trigger] w[i]),
    ensures
        words(w) == seq![w],
{
    assert(!is_space(w[0]));
    find_unique(w, non_spaces(), 0);
    assert(trimmed_start(w) =~= w);
    assert forall|i: int| 0 <= i < w.len() implies !spaces()(#[trigger] w[i]) by {}
    find_unique(w, spaces(), w.len() as int);
    assert(w.take(w.len() as int) =~= w);
    let e = w.skip(w.len() as int);
    assert(e =~= seq![]);
    find_first(e, non_spaces());
    assert(trimmed_start(e) =~= e);
    assert(words(e) =~= seq![]);
    assert(seq![w] + Seq::<Text>::empty() =~= seq![w]);
}

/// Texts are joined with the separator between any two of them.
pub proof fn joining_puts_separators_between(v: Seq<Text>, x: Text, sep: Text)
    ensures
        joined(seq![], sep).len() == 0,
        joined(seq![x], sep) == x,
        v.len() > 0 ==> joined(v.push(x), sep) == joined(v, sep) + sep + x,
{
    assert(v.push(x).drop_last() =~= v);
}

/// A text is split at each separator; what has none is one piece.
pub proof fn splitting_is_at_each_separator(a: Text, c: char, b: Text)
    requires
        lacks(a, c),
    ensures
        pieces(a + seq![c] + b, c) == seq![a] + pieces(b, c),
        pieces(a, c) == seq![a],
{
    let s = a + seq![c] + b;
    let k = a.len() as int;
    assert forall|i: int| 0 <= i < k implies !chr(c)(#[trigger] s[i]) by {
        assert(s[i] == a[i]);
    }
    assert(s[k] == c);
    find_unique(s, chr(c), k);
    assert(s.take(k) =~= a);
    assert(s.skip(k + 1) =~= b);
    assert forall|i: int| 0 <= i < k implies !chr(c)(#[trigger] a[i]) by {}
    find_unique(a, chr(c), k);
}

/// The lines of a text end at line feeds; a carriage return before one belongs to no
/// line.
pub proof fn lines_end_at_line_feeds(a: Text, b: Text)
    requires
        lacks(a, '\n'),
    ensures
        text_lines(a + seq!['\n'] + b) == seq![no_cr(a)] + text_lines(b),
        a.len() > 0 ==> text_lines(a) == seq![a],
        text_lines(seq![]).len() == 0,
        no_cr(a + seq!['\r']) == a,
        a.len() > 0 && a.last() != '\r' ==> no_cr(a) == a,
{
    let s = a + seq!['\n'] + b;
    let k = a.len() as int;
    assert forall|i: int| 0 <= i < k implies !chr('\n')(#[trigger] s[i]) by {
        assert(s[i] == a[i]);
    }
    assert(s[k] == '\n');
    find_unique(s, chr('\n'), k);
    assert(s.take(k) =~= a);
    assert(s.skip(k + 1) =~= b);
    assert forall|i: int| 0 <= i < k implies !chr('\n')(#[trigger] a[i]) by {}
    find_unique(a, chr('\n'), k);
    find_unique(Seq::<char>::empty(), chr('\n'), 0);
    assert((a + seq!['\r']).drop_last() =~= a);
}

/// Removing a character removes it everywhere and nothing else; replacing it leaves all
/// others where they are.
pub proof fn characters_are_removed_and_replaced(s: Text, c: char, to: char, x: char, i: int)
    ensures
        without(s.push(c), c) == without(s, c),
        x != c ==> without(s.push(x), c) == without(s, c).push(x),
        without(seq![], c).len() == 0,
        replaced(s, c, to).len() == s.len(),
        0 <= i < s.len() && s[i] == c ==> replaced(s, c, to)[i] == to,
        0 <= i < s.len() && s[i] != c ==> replaced(s, c, to)[i] == s[i],
{
    assert(s.push(c).drop_last() =~= s);
    assert(s.push(x).drop_last() =~= s);
}

/// A text begins with what it was put together from first, ends with what came last, and
/// holds what stands in between.
pub proof fn parts_of_a_text_are_found(a: Text, p: Text, b: Text)
    ensures
        begins(p + b, p),
        ends(a + p, p),
        within(a + p + b, p),
{
    assert((p + b).take(p.len() as int) =~= p);
    assert((a + p).skip(a.len() as int) =~= p);
    let s = a + p + b;
    let i = a.len() as int;
    assert(s.subrange(i, i + p.len()) =~= p);
}

/// The last separator splits a text into what stands before and behind it.
pub proof fn the_last_separator_splits(a: Text, c: char, b: Text)
    requires
        lacks(b, c),
    ensures
        cut_last(a + seq![c] + b, c) == Some((a, b)),
        cut_last(b, c) is None,
{
    let s = a + seq![c] + b;
    let k = (a.len() + 1) as int;
    assert forall|i: int| k <= i < s.len() implies !chr(c)(#[trigger] s[i]) by {
        assert(s[i] == b[i - k]);
    }
    assert(s[k - 1] == c);
    find_last_unique(s, chr(c), k);
    assert(s.take(k - 1) =~= a);
    assert(s.skip(k) =~= b);
    assert forall|i: int| 0 <= i < b.len() implies !chr(c)(#[trigger] b[i]) by {}
    find_last_unique(b, chr(c), 0);
}

/// The digits of a radix, and what they are worth: the letters follow the digits, in
/// upper or lower case.
pub proof fn digits_are_worth(c: char)
    ensures
        48 <= c as u32 <= 57 ==> digit_value(c, 10) == Some((c as u32 - 48) as nat) && digit_value(
            c,
            16,
        ) == Some((c as u32 - 48) as nat),
        97 <= c as u32 <= 102 ==> digit_value(c, 16) == Some((c as u32 - 87) as nat),
        65 <= c as u32 <= 70 ==> digit_value(c, 16) == Some((c as u32 - 55) as nat),
        digit_value(c, 10) is Some <==> is_digit(c),
        digit_value(c, 8) is Some <==> 48 <= c as u32 <= 55,
{
}

/// A number that is written is read as that number, also behind a `+`, where it is not
/// beyond the limit; and behind a `-` as its negative.
pub proof fn numbers_are_read(n: nat, max: nat)
    ensures
        n <= max ==> number(decimal(n), 10, max) == Some(n),
        n <= max ==> number(seq!['+'] + decimal(n), 10, max) == Some(n),
        n > max ==> number(decimal(n), 10, max) is None,
        number(seq![], 10, max) is None,
        n <= 0x7fff_ffff ==> signed32(decimal(n)) == Some(n as int),
        n <= 0x8000_0000 ==> signed32(seq!['-'] + decimal(n)) == Some(-(n as int)),
        n > 0x7fff_ffff ==> signed32(decimal(n)) is None,
        n > 0x8000_0000 ==> signed32(seq!['-'] + decimal(n)) is None,
{
    let d = decimal(n);
    decimal_reads_back(n);
    let p = seq!['+'] + d;
    assert(p.skip(1) =~= d);
    assert(unsigned(p) == d);
    let m = seq!['-'] + d;
    assert(m.skip(1) =~= d);
}

/// What stands behind a prefix and before a suffix; a text is split at a text where that
/// begins first.
pub proof fn prefixes_and_suffixes_are_taken_off(a: Text, p: Text, b: Text)
    requires
        p.len() > 0,
    ensures
        after_prefix(p + b, p) == Some(b),
        !begins(a, p) ==> after_prefix(a, p) is None,
        before_suffix(a + p, p) == Some(a),
        !ends(a, p) ==> before_suffix(a, p) is None,
        cut_text(p + b, p) == Some((Seq::<char>::empty(), b)),
        lacks(a, p[0]) ==> cut_text(a + p + b, p) == Some((a, b)),
        lacks(a, p[0]) ==> cut_text(a, p) is None,
    decreases a.len(),
{
    assert((p + b).take(p.len() as int) =~= p);
    assert((p + b).skip(p.len() as int) =~= b);
    assert((a + p).skip(a.len() as int) =~= p);
    assert((a + p).take(a.len() as int) =~= a);
    let s = a + p + b;
    if lacks(a, p[0]) {
        if a.len() == 0 {
            assert(s =~= p + b);
            assert(a =~= seq![]);
        } else {
            let t = a.skip(1);
            assert forall|i: int| 0 <= i < t.len() implies #[trigger] t[i] != p[0] by {
                assert(t[i] == a[i + 1]);
            }
            prefixes_and_suffixes_are_taken_off(t, p, b);
            assert(a[0] != p[0]);
            assert(s[0] == a[0]);
            if begins(s, p) {
                assert(s.take(p.len() as int)[0] == s[0]);
            }
            if begins(a, p) {
                assert(a.take(p.len() as int)[0] == a[0]);
            }
            assert(s.skip(1) =~= t + p + b);
            assert(seq![a[0]] + t =~= a);
        }
    }
}

} // verus!
