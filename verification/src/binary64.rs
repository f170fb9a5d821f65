//! Decimal numbers times whole factors, as 64-bit binary floating point gives
//! them, computed with integers alone.
//!
//! A binary64 number has 53 significant bits, and both reading a decimal number
//! and multiplying round to the nearest such number, to the even one of two
//! that are equally near. Values are counted here in units of 2^-120; what is
//! so small that it has fewer than 53 bits above that unit comes to nothing
//! when it is multiplied by a factor below 2^45 and cut to a whole number.

use vstd::prelude::*;

use crate::text::{digit_value, digits, Text};

verus! {

pub open spec fn two(n: nat) -> nat
    decreases n,
{
    if n == 0 {
        1
    } else {
        2 * two((n - 1) as nat)
    }
}

pub open spec fn ten(n: nat) -> nat
    decreases n,
{
    if n == 0 {
        1
    } else {
        10 * ten((n - 1) as nat)
    }
}

/// The number of binary digits.
pub open spec fn bits(n: nat) -> nat
    decreases n,
{
    if n == 0 {
        0
    } else {
        1 + bits(n / 2)
    }
}

/// The whole number nearest to `n / d`, the even one of two.
pub open spec fn nearest(n: nat, d: nat) -> nat {
    let q = n / d;
    let r = n % d;
    if 2 * r < d || (2 * r == d && q % 2 == 0) {
        q
    } else {
        q + 1
    }
}

/// How many binary digits stand below the first 53.
pub open spec fn excess(n: nat) -> nat {
    if bits(n) <= 53 {
        0
    } else {
        (bits(n) - 53) as nat
    }
}

/// `p / q` rounded to 53 significant bits.
pub open spec fn rounded(p: nat, q: nat) -> nat {
    let s = excess(p / q);
    nearest(p, q * two(s)) * two(s)
}

/// The whole part of the decimal number `n / 10^k` times `factor`, in binary64
/// arithmetic.
pub open spec fn scaled(n: nat, k: nat, factor: nat) -> nat {
    rounded(rounded(n * two(120), ten(k)) * factor, 1) / two(120)
}

// ---- powers and digits ----------------------------------------------------------

proof fn two_positive(n: nat)
    ensures
        two(n) >= 1,
    decreases n,
{
    if n > 0 {
        two_positive((n - 1) as nat);
    }
}

proof fn ten_positive(n: nat)
    ensures
        ten(n) >= 1,
    decreases n,
{
    if n > 0 {
        ten_positive((n - 1) as nat);
    }
}

proof fn two_adds(a: nat, b: nat)
    ensures
        two(a + b) == two(a) * two(b),
    decreases a,
{
    if a == 0 {
        assert(two(b) == 1 * two(b)) by (nonlinear_arith);
    } else {
        two_adds((a - 1) as nat, b);
        let x = two((a - 1) as nat);
        let y = two(b);
        assert(2 * (x * y) == (2 * x) * y) by (nonlinear_arith);
        assert((a + b - 1) as nat == (a - 1) as nat + b);
    }
}

pub proof fn two_values()
    ensures
        two(11) == 0x800,
        two(46) == 0x4000_0000_0000,
        two(45) == 0x2000_0000_0000,
        two(52) == 0x10_0000_0000_0000,
        two(53) == 0x20_0000_0000_0000,
        two(59) == 0x800_0000_0000_0000,
        two(60) == 0x1000_0000_0000_0000,
        two(64) == 0x1_0000_0000_0000_0000,
        two(120) == 0x100_0000_0000_0000_0000_0000_0000_0000,
{
    reveal_with_fuel(two, 17);
    assert(two(15) == 0x8000);
    two_adds(15, 15);
    two_adds(30, 15);
    two_adds(45, 1);
    two_adds(45, 7);
    two_adds(45, 8);
    two_adds(45, 14);
    two_adds(45, 15);
    two_adds(60, 4);
    two_adds(60, 60);
    let x = two(60);
    assert(x * x == 0x100_0000_0000_0000_0000_0000_0000_0000) by (nonlinear_arith)
        requires
            x == 0x1000_0000_0000_0000,
    ;
}

proof fn two_grows(a: nat, b: nat)
    requires
        a <= b,
    ensures
        two(a) <= two(b),
    decreases b,
{
    if a < b {
        two_grows(a, (b - 1) as nat);
    }
}

/// A number has `l` binary digits where it lies between two powers of two.
proof fn bits_between(n: nat, l: nat)
    requires
        l > 0,
        two((l - 1) as nat) <= n,
        n < two(l),
    ensures
        bits(n) == l,
    decreases l,
{
    if l == 1 {
        assert(n == 1);
        assert(bits(0) == 0);
    } else {
        two_positive((l - 2) as nat);
        bits_between(n / 2, (l - 1) as nat);
    }
}

proof fn bits_bound(n: nat)
    ensures
        n < two(bits(n)),
        n > 0 ==> bits(n) > 0 && two((bits(n) - 1) as nat) <= n,
    decreases n,
{
    if n > 0 {
        bits_bound(n / 2);
        if n / 2 == 0 {
            assert(bits(0) == 0);
        }
    }
}

/// A common factor does not change what is nearest.
proof fn nearest_scales(n: nat, d: nat, c: nat)
    requires
        d > 0,
        c > 0,
    ensures
        d * c > 0,
        nearest(n * c, d * c) == nearest(n, d),
{
    let q = n / d;
    let r = n % d;
    assert(n == q * d + r) by {
        vstd::arithmetic::div_mod::lemma_fundamental_div_mod(n as int, d as int);
        assert(d * q == q * d) by (nonlinear_arith);
    }
    assert(d * c > 0) by (nonlinear_arith)
        requires
            d > 0,
            c > 0,
    ;
    assert(n * c == q * (d * c) + r * c) by (nonlinear_arith)
        requires
            n == q * d + r,
    ;
    assert(0 <= r * c < d * c) by (nonlinear_arith)
        requires
            0 <= r < d,
            c > 0,
    ;
    vstd::arithmetic::div_mod::lemma_fundamental_div_mod_converse(
        (n * c) as int,
        (d * c) as int,
        q as int,
        (r * c) as int,
    );
    assert((2 * r < d) == (2 * (r * c) < d * c)) by (nonlinear_arith)
        requires
            c > 0,
    ;
    assert((2 * r == d) == (2 * (r * c) == d * c)) by (nonlinear_arith)
        requires
            c > 0,
    ;
}

/// What is nearest to `(q * d + f) / (d * 2^s)`: the digits of `q` below the
/// first decide, and `f` where they are just one half.
proof fn nearest_by_digits(q: nat, d: nat, f: nat, s: nat)
    requires
        d > 0,
        f < d,
        s > 0,
    ensures
        nearest(q * d + f, d * two(s)) == ({
            let m = q / two(s);
            let r = q % two(s);
            let half = two((s - 1) as nat);
            if r > half || (r == half && (f > 0 || m % 2 == 1)) {
                m + 1
            } else {
                m
            }
        }),
{
    let w = two(s);
    let half = two((s - 1) as nat);
    two_positive(s);
    two_positive((s - 1) as nat);
    let m = q / w;
    let r = q % w;
    vstd::arithmetic::div_mod::lemma_fundamental_div_mod(q as int, w as int);
    assert(q == m * w + r) by {
        assert(w * m == m * w) by (nonlinear_arith);
    }
    assert(q * d + f == m * (d * w) + (r * d + f)) by (nonlinear_arith)
        requires
            q == m * w + r,
    ;
    assert(0 <= r * d + f < d * w) by (nonlinear_arith)
        requires
            0 <= r < w,
            0 <= f < d,
    ;
    vstd::arithmetic::div_mod::lemma_fundamental_div_mod_converse(
        (q * d + f) as int,
        (d * w) as int,
        m as int,
        (r * d + f) as int,
    );
    assert(d * w == 2 * (half * d)) by (nonlinear_arith)
        requires
            w == 2 * half,
    ;
    if r < half {
        assert(r * d + d <= half * d) by (nonlinear_arith)
            requires
                r + 1 <= half,
        ;
    } else if r > half {
        assert(r * d >= half * d + d) by (nonlinear_arith)
            requires
                r >= half + 1,
        ;
    }
}

/// A number that is a power of two at least stays so when it is rounded.
proof fn rounded_keeps_size(p: nat, q: nat, l: nat)
    requires
        q > 0,
        l >= 53,
        two(l) * q <= p,
    ensures
        rounded(p, q) >= two(l),
{
    let z = p / q;
    assert(z >= two(l)) by (nonlinear_arith)
        requires
            q > 0,
            two(l) * q <= p,
            z == p / q,
    ;
    bits_bound(z);
    let b = bits(z);
    if b <= l {
        two_grows(b, l);
    }
    let s = excess(z);
    assert(s == b - 53);
    let w = two(s);
    two_positive(s);
    // nearest(p, q * w) is at least p / (q * w), which is z / w.
    let m = p / (q * w);
    assert(q * w > 0) by (nonlinear_arith)
        requires
            q > 0,
            w > 0,
    ;
    two_adds(52, s);
    assert(two(52) * w * q <= p) by {
        assert((52 + s) as nat == (b - 1) as nat);
        assert(two((b - 1) as nat) <= z);
        assert(z * q <= p) by (nonlinear_arith)
            requires
                q > 0,
                z == p / q,
        ;
        assert(two(52) * w * q <= z * q) by (nonlinear_arith)
            requires
                two(52) * w <= z,
                q > 0,
        ;
    }
    assert(m >= two(52)) by (nonlinear_arith)
        requires
            two(52) * w * q <= p,
            m == p / (q * w),
            q * w > 0,
    ;
    assert(nearest(p, q * w) >= m);
    assert(nearest(p, q * w) * w >= two(52) * w) by (nonlinear_arith)
        requires
            nearest(p, q * w) >= two(52),
    ;
    two_grows(l, (b - 1) as nat);
}

/// Rounding a whole number at most doubles it.
proof fn rounded_at_most_doubles(p: nat)
    ensures
        rounded(p, 1) <= 2 * p,
{
    assert(p / 1 == p);
    bits_bound(p);
    let s = excess(p);
    let w = two(s);
    two_positive(s);
    assert(1 * w == w) by (nonlinear_arith);
    let m = p / w;
    vstd::arithmetic::div_mod::lemma_fundamental_div_mod(p as int, w as int);
    if s == 0 {
        assert(w == 1);
        assert(nearest(p, 1) == p);
        assert(nearest(p, w) * w == nearest(p, w)) by (nonlinear_arith)
            requires
                w == 1,
        ;
    } else {
        two_grows(s, (bits(p) - 1) as nat);
        assert(w <= p);
        assert((m + 1) * w <= p + w) by (nonlinear_arith)
            requires
                p == w * m + p % w,
                p % w >= 0,
        ;
        assert(nearest(p, w) * w <= (m + 1) * w) by (nonlinear_arith)
            requires
                nearest(p, w) <= m + 1,
                w > 0,
        ;
    }
}

proof fn bits_shift(q: nat, c: nat, j: nat, z: nat)
    requires
        q > 0,
        c == two(j),
        q * c <= z,
        z < (q + 1) * c,
    ensures
        bits(z) == bits(q) + j,
{
    bits_bound(q);
    let b = bits(q);
    two_adds((b - 1) as nat, j);
    two_adds(b, j);
    assert(two((b - 1) as nat) * c <= q * c) by (nonlinear_arith)
        requires
            two((b - 1) as nat) <= q,
    ;
    assert((q + 1) * c <= two(b) * c) by (nonlinear_arith)
        requires
            q + 1 <= two(b),
    ;
    assert(((b - 1) as nat) + j == (b + j - 1) as nat);
    bits_between(z, b + j);
}

/// What the first 53 digits of `q` come to is what `n / d` rounds to.
proof fn first_rounding(n: nat, d: nat, t: nat, q: nat, f: nat, s: nat)
    requires
        d > 0,
        t <= 120,
        n * two(t) == q * d + f,
        f < d,
        s > 0,
        bits(q) == s + 53,
    ensures
        rounded(n * two(120), d) == nearest(q * d + f, d * two(s)) * two((s + 120 - t) as nat),
{
    let j = (120 - t) as nat;
    let c = two(j);
    two_positive(j);
    two_positive(s);
    two_adds(t, j);
    assert(t + j == 120);
    let p = n * two(120);
    assert(p == (q * d + f) * c) by (nonlinear_arith)
        requires
            p == n * (two(t) * c),
            n * two(t) == q * d + f,
    ;
    let z = p / d;
    assert(q * c <= z && z < (q + 1) * c) by (nonlinear_arith)
        requires
            p == (q * d + f) * c,
            z == p / d,
            0 <= f < d,
            d > 0,
            c > 0,
    ;
    if q == 0 {
        assert(bits(0) == 0);
    }
    bits_shift(q, c, j, z);
    assert(excess(z) == s + j);
    two_adds(s, j);
    assert(d * two(s) > 0) by (nonlinear_arith)
        requires
            d > 0,
            two(s) > 0,
    ;
    assert(d * (two(s) * c) == (d * two(s)) * c) by (nonlinear_arith);
    nearest_scales(q * d + f, d * two(s), c);
}

proof fn second_rounding(p: nat, j: nat)
    requires
        bits(p) >= 53,
    ensures
        rounded(p * two(j), 1) == nearest(p, two(excess(p))) * two(excess(p) + j),
{
    let c = two(j);
    two_positive(j);
    let y = p * c;
    assert(y / 1 == y);
    if p == 0 {
        assert(bits(0) == 0);
    }
    assert(y < (p + 1) * c) by (nonlinear_arith)
        requires
            y == p * c,
            c > 0,
    ;
    bits_shift(p, c, j, y);
    let s = excess(p);
    two_positive(s);
    two_adds(s, j);
    assert(1 * two(s + j) == two(s + j)) by (nonlinear_arith);
    nearest_scales(p, two(s), c);
}

proof fn quotient_scales(a: nat, b: nat, c: nat)
    requires
        b > 0,
        c > 0,
    ensures
        b * c > 0,
        (a * c) / (b * c) == a / b,
{
    let q = a / b;
    let r = a % b;
    vstd::arithmetic::div_mod::lemma_fundamental_div_mod(a as int, b as int);
    assert(b * c > 0) by (nonlinear_arith)
        requires
            b > 0,
            c > 0,
    ;
    assert(a * c == q * (b * c) + r * c) by (nonlinear_arith)
        requires
            a == b * q + r,
    ;
    assert(0 <= r * c < b * c) by (nonlinear_arith)
        requires
            0 <= r < b,
            c > 0,
    ;
    vstd::arithmetic::div_mod::lemma_fundamental_div_mod_converse(
        (a * c) as int,
        (b * c) as int,
        q as int,
        (r * c) as int,
    );
}

// ---- decimal digits -------------------------------------------------------------

/// The number that decimal digits write, the last one the highest.
pub open spec fn low_first(v: Seq<u8>) -> nat
    decreases v.len(),
{
    if v.len() == 0 {
        0
    } else {
        low_first(v.drop_last()) + v.last() as nat * ten((v.len() - 1) as nat)
    }
}

pub open spec fn are_digits(v: Seq<u8>) -> bool {
    forall|i: int| 0 <= i < v.len() ==> #[trigger] v[i] < 10
}

proof fn low_first_bound(v: Seq<u8>)
    requires
        are_digits(v),
    ensures
        low_first(v) < ten(v.len()),
    decreases v.len(),
{
    if v.len() > 0 {
        low_first_bound(v.drop_last());
        let t = ten((v.len() - 1) as nat);
        let d = v.last();
        assert(v[v.len() - 1] < 10);
        assert(d as nat * t <= 9 * t) by (nonlinear_arith)
            requires
                d < 10,
        ;
    }
}

/// The number is zero just where every digit is.
proof fn low_first_zero(v: Seq<u8>)
    ensures
        (low_first(v) == 0) == (forall|i: int| 0 <= i < v.len() ==> #[trigger] v[i] == 0),
    decreases v.len(),
{
    if v.len() > 0 {
        let w = v.drop_last();
        low_first_zero(w);
        let t = ten((v.len() - 1) as nat);
        ten_positive((v.len() - 1) as nat);
        let d = v.last();
        if d > 0 {
            assert(d as nat * t > 0) by (nonlinear_arith)
                requires
                    d > 0,
                    t > 0,
            ;
            assert(v[v.len() - 1] != 0);
        } else {
            assert(d as nat * t == 0) by (nonlinear_arith)
                requires
                    d == 0,
            ;
            assert forall|i: int| low_first(w) == 0 && 0 <= i < v.len() implies #[trigger] v[i]
                == 0 by {
                if i < w.len() {
                    assert(w[i] == v[i]);
                }
            }
            if low_first(w) != 0 {
                let i = choose|i: int| 0 <= i < w.len() && w[i] != 0;
                assert(v[i] != 0);
            }
        }
    }
}

/// Double the digits; the digit that is carried out of them comes back.
fn double(v: &mut Vec<u8>) -> (carry: u8)
    requires
        are_digits(old(v)@),
    ensures
        are_digits(final(v)@),
        final(v).len() == old(v).len(),
        carry <= 1,
        2 * low_first(old(v)@) == low_first(final(v)@) + carry * ten(old(v).len() as nat),
{
    let ghost was = v@;
    let mut carry: u8 = 0;
    let mut i: usize = 0;
    assert(was.take(0) =~= seq![]);
    assert(v@.take(0) =~= seq![]);
    assert(0 * ten(0) == 0) by (nonlinear_arith);
    while i < v.len()
        invariant
            i <= v.len(),
            v.len() == was.len(),
            are_digits(was),
            are_digits(v@),
            carry <= 1,
            forall|j: int| i <= j < v.len() ==> #[trigger] v@[j] == was[j],
            2 * low_first(was.take(i as int)) == low_first(v@.take(i as int)) + carry * ten(
                i as nat,
            ),
        decreases v.len() - i,
    {
        let ghost before = v@;
        let d = v[i];
        assert(d == was[i as int]);
        let x: u8 = 2 * d + carry;
        let out: u8 = if x >= 10 {
            1
        } else {
            0
        };
        let y: u8 = if x >= 10 {
            x - 10
        } else {
            x
        };
        v.set(i, y);
        proof {
            let t = ten(i as nat);
            assert(was.take(i + 1).drop_last() =~= was.take(i as int));
            assert(v@.take(i + 1).drop_last() =~= before.take(i as int));
            assert(2 * (d as nat * t) + carry * t == y as nat * t + out * (10 * t))
                by (nonlinear_arith)
                requires
                    2 * d + carry == y + 10 * out,
            ;
            assert(ten((i + 1) as nat) == 10 * t);
        }
        carry = out;
        i = i + 1;
    }
    assert(was.take(was.len() as int) =~= was);
    assert(v@.take(v.len() as int) =~= v@);
    carry
}

/// Is some digit not zero?
fn any_digit(v: &Vec<u8>) -> (r: bool)
    ensures
        r == (low_first(v@) > 0),
{
    proof {
        low_first_zero(v@);
    }
    let mut i: usize = 0;
    while i < v.len()
        invariant
            i <= v.len(),
            forall|j: int| 0 <= j < i ==> #[trigger] v@[j] == 0,
            (low_first(v@) == 0) == (forall|i: int| 0 <= i < v.len() ==> #[trigger] v@[i] == 0),
        decreases v.len() - i,
    {
        if v[i] != 0 {
            assert(v@[i as int] != 0);
            return true;
        }
        i = i + 1;
    }
    false
}

/// The first 53 binary digits of a number, how many there are below them, and
/// two to that power.
fn leading(q: u128) -> (r: (u128, u32, u128))
    requires
        q < 0x1_0000_0000_0000_0000_0000_0000_0000,
    ensures
        r.0 < 0x20_0000_0000_0000,
        q >= 0x10_0000_0000_0000 ==> r.0 >= 0x10_0000_0000_0000 && bits(q as nat) == 53 + r.1,
        q < 0x20_0000_0000_0000 ==> r.1 == 0,
        q >= 0x20_0000_0000_0000 ==> r.1 > 0,
        r.0 == q as nat / two(r.1 as nat),
        r.2 == two(r.1 as nat),
        r.1 <= 60,
        r.1 == excess(q as nat),
{
    let mut m: u128 = q;
    let mut s: u32 = 0;
    let mut w: u128 = 1;
    assert(q as nat / 1 == q);
    while m >= 0x20_0000_0000_0000
        invariant
            q < 0x1_0000_0000_0000_0000_0000_0000_0000,
            s <= 59,
            w == two(s as nat),
            m == q as nat / two(s as nat),
            s > 0 ==> m >= 0x10_0000_0000_0000,
            s == 0 ==> m == q,
        decreases m,
    {
        proof {
            two_values();
            two_positive(s as nat);
            vstd::arithmetic::div_mod::lemma_div_denominator(q as int, two(s as nat) as int, 2);
            assert(two((s + 1) as nat) == 2 * two(s as nat));
            vstd::arithmetic::div_mod::lemma_fundamental_div_mod(q as int, w as int);
            assert(w * 0x20_0000_0000_0000 <= q) by (nonlinear_arith)
                requires
                    m >= 0x20_0000_0000_0000,
                    q == w * m + (q as int % w as int),
                    (q as int % w as int) >= 0,
                    w > 0,
            ;
            if s >= 59 {
                two_grows(59, s as nat);
            }
            two_grows((s + 1) as nat, 59);
        }
        m = m / 2;
        s = s + 1;
        w = w * 2;
    }
    proof {
        two_positive(s as nat);
        vstd::arithmetic::div_mod::lemma_fundamental_div_mod(q as int, w as int);
        two_values();
        if q >= 0x10_0000_0000_0000 {
            two_adds(52, s as nat);
            two_adds(53, s as nat);
            assert(two(52) * w <= q) by (nonlinear_arith)
                requires
                    two(52) <= m,
                    q == w * m + (q as int % w as int),
                    (q as int % w as int) >= 0,
                    w > 0,
            ;
            assert(q < two(53) * w) by (nonlinear_arith)
                requires
                    m + 1 <= two(53),
                    q == w * m + (q as int % w as int),
                    (q as int % w as int) < w,
                    w > 0,
            ;
            assert((53 + s - 1) as nat == 52 + s as nat);
            bits_between(q as nat, (53 + s) as nat);
        } else {
            bits_bound(q as nat);
            if bits(q as nat) > 53 {
                two_grows(53, (bits(q as nat) - 1) as nat);
            }
        }
    }
    (m, s, w)
}

/// `value / 2^s` to the nearest whole number, from its first digits `m` and the
/// power `w`; `more` says that the value is a little larger than it seems.
fn round_off(q: u128, m: u128, s: u32, w: u128, more: bool) -> (r: u128)
    requires
        w == two(s as nat),
        m == q as nat / two(s as nat),
        m < 0x20_0000_0000_0000,
    ensures
        s > 0 ==> r == ({
            let rest = q as nat % two(s as nat);
            let half = two((s - 1) as nat);
            if rest > half || (rest == half && (more || m % 2 == 1)) {
                m + 1
            } else {
                m as int
            }
        }),
        s == 0 ==> r == m,
        m <= r <= m + 1,
{
    if s == 0 {
        return m;
    }
    proof {
        two_positive(s as nat);
        vstd::arithmetic::div_mod::lemma_fundamental_div_mod(q as int, w as int);
        assert(m * w <= q) by (nonlinear_arith)
            requires
                q == w * m + (q as int % w as int),
                (q as int % w as int) >= 0,
        ;
        assert(m * w == w * m) by (nonlinear_arith);
    }
    let rest: u128 = q - m * w;
    let half: u128 = w / 2;
    assert(two(s as nat) == 2 * two((s - 1) as nat));
    if rest > half || (rest == half && (more || m % 2 == 1)) {
        m + 1
    } else {
        m
    }
}

/// A number that fills more than 64 bits before the decimal point stays as
/// large.
pub proof fn large_stays_large(n: nat, k: nat, factor: nat)
    requires
        n >= two(64) * ten(k),
        factor >= 1,
    ensures
        scaled(n, k, factor) > u64::MAX,
{
    let d = ten(k);
    ten_positive(k);
    two_values();
    two_adds(64, 120);
    let u = two(120);
    two_positive(120);
    assert(two(184) * d <= n * u) by (nonlinear_arith)
        requires
            two(184) == two(64) * u,
            n >= two(64) * d,
            u > 0,
    ;
    rounded_keeps_size(n * u, d, 184);
    let x = rounded(n * u, d);
    assert(two(184) * 1 <= x * factor) by (nonlinear_arith)
        requires
            x >= two(184),
            factor >= 1,
    ;
    rounded_keeps_size(x * factor, 1, 184);
    let y = rounded(x * factor, 1);
    assert(y / u >= two(64)) by (nonlinear_arith)
        requires
            y >= two(64) * u,
            u > 0,
    ;
}

/// Where not even 2^120 times the number has 53 bits, nothing is left of it.
proof fn tiny_is_nothing(n: nat, k: nat, q: nat, f: nat, factor: nat)
    requires
        n * two(120) == q * ten(k) + f,
        f < ten(k),
        q < 0x20_0000_0000_0000,
        factor < 0x2000_0000_0000,
    ensures
        scaled(n, k, factor) == 0,
{
    two_values();
    let d = ten(k);
    let p = n * two(120);
    vstd::arithmetic::div_mod::lemma_fundamental_div_mod_converse(
        p as int,
        d as int,
        q as int,
        f as int,
    );
    bits_bound(q);
    if bits(q) > 53 {
        two_grows(53, (bits(q) - 1) as nat);
    }
    assert(excess(p / d) == 0);
    assert(d * 1 == d) by (nonlinear_arith);
    let m = nearest(p, d);
    assert(m * 1 == m) by (nonlinear_arith);
    assert(two(0) == 1);
    assert(rounded(p, d) == m);
    let y = m * factor;
    assert(y <= 0x20_0000_0000_0000 * 0x2000_0000_0000) by (nonlinear_arith)
        requires
            y == m * factor,
            m <= 0x20_0000_0000_0000,
            factor < 0x2000_0000_0000,
    ;
    rounded_at_most_doubles(y);
}

proof fn shifts_are_small(q: nat, s: nat, p: nat, t: nat)
    requires
        q < 0x1_0000_0000_0000_0000,
        bits(q) == 53 + s,
        p <= 0x20_0000_0000_0000 * 0x2000_0000_0000,
        bits(p) == 53 + t,
    ensures
        two(s) <= 0x800,
        two(t) <= 0x4000_0000_0000,
{
    two_values();
    bits_bound(q);
    if s > 11 {
        two_grows(64, (bits(q) - 1) as nat);
    }
    two_grows(s, 11);
    bits_bound(p);
    two_adds(53, 46);
    let a = two(53);
    let b = two(46);
    assert(a * b > 0x20_0000_0000_0000 * 0x2000_0000_0000) by (nonlinear_arith)
        requires
            a == 0x20_0000_0000_0000,
            b == 0x4000_0000_0000,
    ;
    if t > 46 {
        two_grows(99, (bits(p) - 1) as nat);
    }
    two_grows(t, 46);
}

/// The number `whole + 0.fraction` times `factor`, cut to a whole number, in
/// binary64 arithmetic; nothing where that does not fit. The digits of the
/// fraction are given from the last to the first.
pub fn scale(whole: u64, fraction: Vec<u8>, factor: u64) -> (r: Option<u64>)
    requires
        are_digits(fraction@),
        1 <= factor < 0x2000_0000_0000,
    ensures
        ({
            let k = fraction.len() as nat;
            let v = scaled(whole as nat * ten(k) + low_first(fraction@), k, factor as nat);
            match r {
                Some(x) => v == x,
                None => v > u64::MAX,
            }
        }),
{
    let ghost k = fraction.len() as nat;
    let ghost d = ten(k);
    let ghost n = whole as nat * d + low_first(fraction@);
    let mut f = fraction;
    let mut q: u128 = whole as u128;
    let mut t: u32 = 0;
    let mut u: u128 = 1;
    assert(n * 1 == n) by (nonlinear_arith);
    while t < 120 && q < 0x20_0000_0000_0000
        invariant
            t <= 120,
            u == two(t as nat),
            q < 0x1_0000_0000_0000_0000,
            are_digits(f@),
            f.len() == k,
            d == ten(k),
            n * two(t as nat) == q * d + low_first(f@),
        decreases 120 - t,
    {
        proof {
            two_values();
            two_grows((t + 1) as nat, 120);
            assert(two((t + 1) as nat) == 2 * two(t as nat));
        }
        let ghost before = low_first(f@);
        let b = double(&mut f);
        proof {
            assert(n * (2 * two(t as nat)) == (2 * q + b) * d + low_first(f@)) by (nonlinear_arith)
                requires
                    n * two(t as nat) == q * d + before,
                    2 * before == low_first(f@) + b * d,
            ;
        }
        q = 2 * q + b as u128;
        t = t + 1;
        u = 2 * u;
    }
    proof {
        low_first_bound(f@);
        ten_positive(k);
        two_values();
    }
    if q < 0x20_0000_0000_0000 {
        proof {
            tiny_is_nothing(n, k, q as nat, low_first(f@), factor as nat);
        }
        return Some(0);
    }
    let (lead, s, w) = leading(q);
    let more = any_digit(&f);
    let m = round_off(q, lead, s, w, more);
    let ghost j = (s + 120 - t) as nat;
    proof {
        nearest_by_digits(q as nat, d, low_first(f@), s as nat);
        first_rounding(n, d, t as nat, q as nat, low_first(f@), s as nat);
    }
    assert(rounded(n * two(120), d) == m as nat * two(j));
    assert(m * factor <= 0x20_0000_0000_0000 * 0x2000_0000_0000) by (nonlinear_arith)
        requires
            m <= 0x20_0000_0000_0000,
            factor < 0x2000_0000_0000,
    ;
    assert(m * factor >= 0x10_0000_0000_0000) by (nonlinear_arith)
        requires
            m >= 0x10_0000_0000_0000,
            factor >= 1,
    ;
    let p: u128 = m * factor as u128;
    let (lead2, s2, w2) = leading(p);
    let m2 = round_off(p, lead2, s2, w2, false);
    proof {
        assert(m as nat * two(j) * factor as nat == p as nat * two(j)) by (nonlinear_arith)
            requires
                p == m * factor,
        ;
        second_rounding(p as nat, j);
        if s2 > 0 {
            nearest_by_digits(p as nat, 1, 0, s2 as nat);
            assert(p as nat * 1 + 0 == p) by (nonlinear_arith);
            assert(1 * two(s2 as nat) == two(s2 as nat)) by (nonlinear_arith);
        } else {
            assert(two(0) == 1);
            assert(p as nat / 1 == p && p as nat % 1 == 0) by (nonlinear_arith);
            assert(nearest(p as nat, 1) == p);
        }
        assert(nearest(p as nat, two(s2 as nat)) == m2);
    }
    assert(rounded(m as nat * two(j) * factor as nat, 1) == m2 as nat * two(s2 as nat + j));
    proof {
        two_adds(s as nat, s2 as nat);
        shifts_are_small(q as nat, s as nat, p as nat, s2 as nat);
        two_positive(t as nat);
        assert(w * w2 <= 0x800 * 0x4000_0000_0000) by (nonlinear_arith)
            requires
                w <= 0x800,
                w2 <= 0x4000_0000_0000,
        ;
        assert(m2 * (w * w2) <= 0x20_0000_0000_0000 * (0x800 * 0x4000_0000_0000))
            by (nonlinear_arith)
            requires
                m2 <= 0x20_0000_0000_0000,
                w * w2 <= 0x800 * 0x4000_0000_0000,
                w * w2 >= 0,
        ;
    }
    let top: u128 = m2 * (w * w2);
    let x: u128 = top / u;
    proof {
        let c = two((120 - t) as nat);
        two_positive((120 - t) as nat);
        two_positive(t as nat);
        two_adds(t as nat, (120 - t) as nat);
        two_adds((s + s2) as nat, (120 - t) as nat);
        assert(s2 as nat + j == (s + s2) as nat + (120 - t) as nat);
        assert(m2 as nat * (two((s + s2) as nat) * c) == top as nat * c) by (nonlinear_arith)
            requires
                top == m2 * (w * w2),
                two((s + s2) as nat) == w * w2,
        ;
        quotient_scales(top as nat, u as nat, c);
    }
    if x > u64::MAX as u128 {
        None
    } else {
        Some(x as u64)
    }
}

/// A number of at most 53 bits, shifted, is not changed by rounding.
proof fn short_is_exact(a: nat, j: nat)
    requires
        a < two(53),
    ensures
        rounded(a * two(j), 1) == a * two(j),
{
    let c = two(j);
    let y = a * c;
    two_positive(j);
    assert(y / 1 == y);
    let s = excess(y);
    let w = two(s);
    two_positive(s);
    assert(1 * w == w) by (nonlinear_arith);
    if a == 0 {
        assert(y == 0) by (nonlinear_arith)
            requires
                a == 0,
                y == a * c,
        ;
        assert(bits(0) == 0);
        assert(nearest(0, 1) == 0);
        assert(nearest(0, 1) * 1 == 0) by (nonlinear_arith)
            requires
                nearest(0, 1) == 0,
        ;
    } else {
        assert(y < (a + 1) * c) by (nonlinear_arith)
            requires
                y == a * c,
                c > 0,
        ;
        bits_shift(a, c, j, y);
        bits_bound(a);
        if bits(a) > 53 {
            two_grows(53, (bits(a) - 1) as nat);
        }
        assert(s <= j);
        let e = two((j - s) as nat);
        two_adds(s, (j - s) as nat);
        assert(s + (j - s) as nat == j);
        assert(y == (a * e) * w + 0) by (nonlinear_arith)
            requires
                y == a * c,
                c == w * e,
        ;
        vstd::arithmetic::div_mod::lemma_fundamental_div_mod_converse(
            y as int,
            w as int,
            (a * e) as int,
            0,
        );
        assert(nearest(y, w) == a * e);
    }
}

/// A whole number times a factor is exact where the product has at most 53
/// bits.
pub proof fn small_is_exact(n: nat, factor: nat)
    requires
        factor >= 1,
        n * factor < two(53),
    ensures
        scaled(n, 0, factor) == n * factor,
{
    assert(n < two(53)) by (nonlinear_arith)
        requires
            factor >= 1,
            n * factor < two(53),
    ;
    let u = two(120);
    two_positive(120);
    short_is_exact(n, 120);
    short_is_exact(n * factor, 120);
    assert(ten(0) == 1);
    assert((n * u) * factor == (n * factor) * u) by (nonlinear_arith);
    let x = n * factor;
    assert((x * u) / u == x) by {
        vstd::arithmetic::div_mod::lemma_div_by_multiple(x as int, u as int);
    }
}

// ---- decimal text ---------------------------------------------------------------

/// Digits written one behind the other.
pub proof fn digits_join(a: Text, b: Text)
    requires
        digits(a, 10) is Some,
        digits(b, 10) is Some,
    ensures
        digits(a + b, 10) == Some(digits(a, 10)->0 * ten(b.len()) + digits(b, 10)->0),
    decreases b.len(),
{
    let x = digits(a, 10)->0;
    if b.len() == 0 {
        assert(a + b =~= a);
        assert(x * 1 == x) by (nonlinear_arith);
    } else {
        let c = b.drop_last();
        digits_join(a, c);
        assert((a + b).drop_last() =~= a + c);
        let y = digits(c, 10)->0;
        let t = ten(c.len());
        assert((x * t + y) * 10 == x * (10 * t) + y * 10) by (nonlinear_arith);
    }
}

/// The first digit counts most.
proof fn digits_first(b: Text)
    requires
        b.len() > 0,
        digits(b, 10) is Some,
    ensures
        digit_value(b[0], 10) is Some,
        digits(b.skip(1), 10) is Some,
        digits(b, 10)->0 == digit_value(b[0], 10)->0 * ten((b.len() - 1) as nat) + digits(
            b.skip(1),
            10,
        )->0,
    decreases b.len(),
{
    let c = b.drop_last();
    if b.len() == 1 {
        assert(c =~= seq![]);
        assert(b.skip(1) =~= seq![]);
        assert(digits(c, 10) == Some(0nat));
        assert(digits(b.skip(1), 10) == Some(0nat));
        let d = digit_value(b[0], 10)->0;
        assert(d * 1 == d) by (nonlinear_arith);
    } else {
        digits_first(c);
        assert(b.skip(1).drop_last() =~= c.skip(1));
        assert(c[0] == b[0]);
        assert(b.skip(1).last() == b.last());
        let d = digit_value(b[0], 10)->0;
        let t = ten((c.len() - 1) as nat);
        let y = digits(c.skip(1), 10)->0;
        assert((d * t + y) * 10 == d * (10 * t) + y * 10) by (nonlinear_arith);
    }
}

/// The digits of a text, from the last to the first.
pub fn fraction_digits(v: &Vec<char>, from: usize, to: usize) -> (r: Vec<u8>)
    requires
        from <= to <= v.len(),
        digits(v@.subrange(from as int, to as int), 10) is Some,
    ensures
        r.len() == to - from,
        are_digits(r@),
        digits(v@.subrange(from as int, to as int), 10) == Some(low_first(r@)),
{
    let ghost b = v@.subrange(from as int, to as int);
    let mut out: Vec<u8> = Vec::new();
    let mut i: usize = to;
    assert(v@.subrange(to as int, to as int) =~= seq![]);
    assert(low_first(out@) == 0);
    proof {
        digits_parts(b);
    }
    while i > from
        invariant
            from <= i <= to <= v.len(),
            b == v@.subrange(from as int, to as int),
            forall|j: int| 0 <= j <= b.len() ==> digits(#[trigger] b.skip(j), 10) is Some,
            out.len() == to - i,
            are_digits(out@),
            digits(v@.subrange(i as int, to as int), 10) == Some(low_first(out@)),
        decreases i,
    {
        i = i - 1;
        let ghost rest = v@.subrange(i as int, to as int);
        proof {
            assert(rest =~= b.skip(i - from));
            digits_first(rest);
            assert(rest.skip(1) =~= v@.subrange(i + 1, to as int));
        }
        let d = (v[i] as u32 - 48) as u8;
        let ghost before = out@;
        out.push(d);
        assert(out@.drop_last() =~= before);
    }
    out
}

/// Every end of a row of digits is one.
proof fn digits_parts(b: Text)
    requires
        digits(b, 10) is Some,
    ensures
        forall|j: int| 0 <= j <= b.len() ==> digits(#[trigger] b.skip(j), 10) is Some,
    decreases b.len(),
{
    if b.len() > 0 {
        digits_first(b);
        digits_parts(b.skip(1));
        assert forall|j: int| 0 <= j <= b.len() implies digits(
            #[trigger] b.skip(j),
            10,
        ) is Some by {
            if j > 0 {
                assert(b.skip(j) =~= b.skip(1).skip(j - 1));
            } else {
                assert(b.skip(0) =~= b);
            }
        }
    } else {
        assert forall|j: int| 0 <= j <= b.len() implies digits(
            #[trigger] b.skip(j),
            10,
        ) is Some by {
            assert(b.skip(j) =~= b);
        }
    }
}

/// A quotient is rounded to the nearest whole number, and to the even one of two that are
/// equally near.
pub proof fn nearest_is_nearest(n: nat, d: nat)
    requires
        d > 0,
    ensures
        2 * (nearest(n, d) * d - n) <= d,
        2 * (n - nearest(n, d) * d) <= d,
        2 * (nearest(n, d) * d - n) == d || 2 * (n - nearest(n, d) * d) == d ==> nearest(n, d) % 2
            == 0,
{
    let q = n / d;
    let r = n % d;
    vstd::arithmetic::div_mod::lemma_fundamental_div_mod(n as int, d as int);
    assert(d * q == q * d) by (nonlinear_arith);
    assert((q + 1) * d == q * d + d) by (nonlinear_arith);
    assert(n == q * d + r);
    assert(r < d);
}

/// A number is kept with 53 binary digits: what is left out is at most half of the last
/// of them.
pub proof fn numbers_keep_their_leading_digits(p: nat, q: nat, s: nat)
    requires
        q > 0,
        two(52 + s) <= p / q < two(53 + s),
    ensures
        2 * (rounded(p, q) * q - p) <= q * two(s),
        2 * (p - rounded(p, q) * q) <= q * two(s),
{
    bits_between(p / q, 53 + s);
    let w = two(s);
    two_positive(s);
    assert(q * w > 0) by (nonlinear_arith)
        requires
            q > 0,
            w > 0,
    ;
    let m = nearest(p, q * w);
    nearest_is_nearest(p, q * w);
    assert((m * w) * q == m * (q * w)) by (nonlinear_arith);
}

} // verus!
