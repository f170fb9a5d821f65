//! Mount points from the names of mount units.

use vstd::prelude::*;
use vstd::string::*;
use vstd::utf8::*;

use crate::text::{before_suffix, digits, number, parse_number, strip_suffix, unsigned, Text};

verus! {

/// `String::from_utf8`: it succeeds just where the bytes are UTF-8, and the
/// string is what they encode.
#[verifier::external_body]
pub(crate) fn text_of_bytes(v: Vec<u8>) -> (r: Option<String>)
    ensures
        match r {
            Some(s) => valid_utf8(v@) && s@ == decode_utf8(v@),
            None => !valid_utf8(v@),
        },
{
    String::from_utf8(v).ok()
}

/// The byte that two characters write in hexadecimal.
pub open spec fn hex_byte(a: u8, b: u8) -> Option<u8> {
    if a < 128 && b < 128 {
        match number(seq![a as char, b as char], 16, 255) {
            Some(n) => Some(n as u8),
            None => None,
        }
    } else {
        None
    }
}

/// A unit name's path, byte by byte: `-` is `/`, and `\xHH` the byte HH.
pub open spec fn unescaped(b: Seq<u8>) -> Seq<u8>
    decreases b.len(),
{
    if b.len() == 0 {
        seq![]
    } else if b[0] == 45 {
        seq![47u8] + unescaped(b.skip(1))
    } else if b[0] == 92 && b.len() > 3 && b[1] == 120 && hex_byte(b[2], b[3]) is Some {
        seq![hex_byte(b[2], b[3])->0] + unescaped(b.skip(4))
    } else {
        seq![b[0]] + unescaped(b.skip(1))
    }
}

/// The mount point of a mount unit: the path that its name escapes, behind a
/// `/`. Nothing where the unit is no mount unit or the path is no text.
pub open spec fn mount_path(name: Text) -> Option<Text> {
    match before_suffix(name, ".mount"@) {
        None => None,
        Some(stem) => {
            let path = seq![47u8] + unescaped(encode_utf8(stem));
            if valid_utf8(path) {
                Some(decode_utf8(path))
            } else {
                None
            }
        },
    }
}

fn read_hex(a: u8, b: u8) -> (r: Option<u8>)
    ensures
        r == hex_byte(a, b),
{
    if a < 128 && b < 128 {
        let mut s = String::new();
        s.push(a as char);
        s.push(b as char);
        assert(s@ =~= seq![a as char, b as char]);
        match parse_number(s.as_str(), 16, 255) {
            Some(n) => Some(n as u8),
            None => None,
        }
    } else {
        None
    }
}

/// The mount point that a `.mount` unit name stands for: `tmp-demo.mount` is
/// `/tmp/demo`, and a literal `-` in the path is `\x2d` in the name.
pub fn mount_path_from_unit_name(name: &str) -> (r: Option<String>)
    ensures
        match r {
            Some(p) => mount_path(name@) == Some(p@),
            None => mount_path(name@) is None,
        },
{
    let stem = match strip_suffix(name, ".mount") {
        Some(s) => s,
        None => {
            return None;
        },
    };
    let b = stem.as_bytes();
    let mut out: Vec<u8> = Vec::new();
    out.push(47);
    let mut i: usize = 0;
    assert(b@.skip(0) =~= b@);
    assert(out@ =~= seq![47u8]);
    while i < b.len()
        invariant
            i <= b.len(),
            b@ == encode_utf8(stem@),
            out@ + unescaped(b@.skip(i as int)) == seq![47u8] + unescaped(b@),
        decreases b.len() - i,
    {
        let ghost rest = b@.skip(i as int);
        let ghost before = out@;
        assert(rest[0] == b@[i as int]);
        if b[i] == 45 {
            out.push(47);
            proof {
                assert(rest.skip(1) =~= b@.skip(i + 1));
                assert(out@ + unescaped(b@.skip(i + 1)) =~= before + unescaped(rest));
            }
            i = i + 1;
        } else {
            let decoded = if b[i] == 92 && b.len() - i > 3 && b[i + 1] == 120 {
                read_hex(b[i + 2], b[i + 3])
            } else {
                None
            };
            proof {
                if rest.len() > 3 {
                    assert(rest[1] == b@[i + 1] && rest[2] == b@[i + 2] && rest[3] == b@[i + 3]);
                }
            }
            match decoded {
                Some(v) => {
                    out.push(v);
                    proof {
                        assert(rest.skip(4) =~= b@.skip(i + 4));
                        assert(out@ + unescaped(b@.skip(i + 4)) =~= before + unescaped(rest));
                    }
                    i = i + 4;
                },
                None => {
                    out.push(b[i]);
                    proof {
                        assert(rest.skip(1) =~= b@.skip(i + 1));
                        assert(out@ + unescaped(b@.skip(i + 1)) =~= before + unescaped(rest));
                    }
                    i = i + 1;
                },
            }
        }
    }
    proof {
        assert(b@.skip(i as int) =~= seq![]);
        assert(out@ =~= out@ + unescaped(b@.skip(i as int)));
    }
    text_of_bytes(out)
}

/// A path's bytes as a unit name has them: `/` is `-`, and `-` and `\` are
/// written in hexadecimal.
pub open spec fn escaped_path(p: Seq<u8>) -> Seq<u8>
    decreases p.len(),
{
    if p.len() == 0 {
        seq![]
    } else if p[0] == 47 {
        seq![45u8] + escaped_path(p.skip(1))
    } else if p[0] == 45 {
        seq![92u8, 120u8, 50u8, 100u8] + escaped_path(p.skip(1))
    } else if p[0] == 92 {
        seq![92u8, 120u8, 53u8, 99u8] + escaped_path(p.skip(1))
    } else {
        seq![p[0]] + escaped_path(p.skip(1))
    }
}

proof fn hex_values()
    ensures
        hex_byte(50, 100) == Some(45u8),
        hex_byte(53, 99) == Some(92u8),
{
    let a = seq!['2', 'd'];
    assert(a.drop_last() =~= seq!['2']);
    assert(seq!['2'].drop_last() =~= seq![]);
    reveal_with_fuel(crate::text::digits, 4);
    assert(crate::text::digits(seq!['2'], 16) == Some(2nat));
    assert(crate::text::digits(a, 16) == Some(45nat));
    let b = seq!['5', 'c'];
    assert(b.drop_last() =~= seq!['5']);
    assert(seq!['5'].drop_last() =~= seq![]);
    assert(crate::text::digits(seq!['5'], 16) == Some(5nat));
    assert(crate::text::digits(b, 16) == Some(92nat));
    assert(seq![50u8 as char, 100u8 as char] =~= a);
    assert(seq![53u8 as char, 99u8 as char] =~= b);
}

/// An escaped path is read as that path.
pub proof fn escaped_path_reads_back(p: Seq<u8>)
    ensures
        unescaped(escaped_path(p)) == p,
    decreases p.len(),
{
    if p.len() > 0 {
        escaped_path_reads_back(p.skip(1));
        hex_values();
        let e = escaped_path(p);
        let rest = escaped_path(p.skip(1));
        if p[0] == 45 || p[0] == 92 {
            assert(e.skip(4) =~= rest);
        } else {
            assert(e.skip(1) =~= rest);
        }
        assert(unescaped(e) =~= p);
    }
}

/// The value of a hexadecimal digit, as a byte.
pub open spec fn hex_digit(c: u8) -> Option<nat> {
    if 48 <= c <= 57 {
        Some((c - 48) as nat)
    } else if 97 <= c <= 102 {
        Some((c - 87) as nat)
    } else if 65 <= c <= 70 {
        Some((c - 55) as nat)
    } else {
        None
    }
}

/// In a unit's name a `-` stands for a `/`, and two hexadecimal digits behind `\\x` for
/// the byte that they write; any other byte stands for itself.
pub proof fn names_are_unescaped(a: u8, b: u8, c: u8, rest: Seq<u8>)
    ensures
        unescaped(seq![45u8] + rest) == seq![47u8] + unescaped(rest),
        hex_digit(a) is Some && hex_digit(b) is Some ==> unescaped(
            seq![92u8, 120u8, a, b] + rest,
        ) == seq![(hex_digit(a)->0 * 16 + hex_digit(b)->0) as u8] + unescaped(rest),
        c != 45 && c != 92 ==> unescaped(seq![c] + rest) == seq![c] + unescaped(rest),
{
    assert((seq![45u8] + rest).skip(1) =~= rest);
    assert((seq![c] + rest).skip(1) =~= rest);
    if hex_digit(a) is Some && hex_digit(b) is Some {
        let s = seq![92u8, 120u8, a, b] + rest;
        assert(s.skip(4) =~= rest);
        let t = seq![a as char, b as char];
        assert(t.drop_last() =~= seq![a as char]);
        assert(seq![a as char].drop_last() =~= seq![]);
        assert(digits(seq![], 16) == Some(0nat));
        assert(digits(seq![a as char], 16) == Some(hex_digit(a)->0));
        assert(digits(t, 16) == Some(hex_digit(a)->0 * 16 + hex_digit(b)->0));
        assert(unsigned(t) == t);
        assert(hex_byte(a, b) == Some((hex_digit(a)->0 * 16 + hex_digit(b)->0) as u8));
    }
}

} // verus!
