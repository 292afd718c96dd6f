//! Number grammars of the Tachibana wire format: the numbers of prices and
//! quantities (fixed-point decimals, infinities, NaN), and the integer fields
//! of a `YYYYMMDD` date.

use vstd::prelude::*;

verus! {

/// Fixed-point scale of prices and quantities: 10^8 units per whole unit.
pub const UNITS_PER_WHOLE: u64 = 100_000_000;

/// Whether `b` is an ASCII decimal digit.
pub open spec fn is_digit_byte(b: u8) -> bool {
    48 <= b <= 57
}

/// Every byte of `s` is an ASCII digit.
pub open spec fn all_digits(s: Seq<u8>) -> bool {
    forall|i: int| 0 <= i < s.len() ==> is_digit_byte(#[trigger] s[i])
}

/// Value of a run of ASCII digits read in base ten.
pub open spec fn digits_value(s: Seq<u8>) -> nat
    decreases s.len(),
{
    if s.len() == 0 {
        0
    } else {
        digits_value(s.drop_last()) * 10 + (s.last() - 48) as nat
    }
}

/// 10^n.
pub open spec fn pow10(n: nat) -> nat
    decreases n,
{
    if n == 0 {
        1
    } else {
        10 * pow10((n - 1) as nat)
    }
}

/// Index of the first `.` (byte 46) in `s`, or its length when there is none.
pub open spec fn first_dot(s: Seq<u8>) -> nat
    decreases s.len(),
{
    if s.len() == 0 {
        0
    } else if s[0] == 46 {
        0
    } else {
        1 + first_dot(s.drop_first())
    }
}

/// Index of the first exponent marker `e` or `E` (bytes 101, 69) in `s`,
/// or its length when there is none.
pub open spec fn first_exp(s: Seq<u8>) -> nat
    decreases s.len(),
{
    if s.len() == 0 {
        0
    } else if s[0] == 101 || s[0] == 69 {
        0
    } else {
        1 + first_exp(s.drop_first())
    }
}

/// The digits `ds` cut, or padded on the right with `0`, to length `n`
/// (empty when `n <= 0`).
pub open spec fn pad_digits(ds: Seq<u8>, n: int) -> Seq<u8> {
    Seq::new(
        if n > 0 {
            n as nat
        } else {
            0
        },
        |j: int|
            if j < ds.len() {
                ds[j]
            } else {
                48u8
            },
    )
}

/// An unsigned number in units of 10^-8, truncated: the mantissa
/// `Digit+ | Digit+ '.' Digit* | Digit* '.' Digit+`, then optionally `e` or
/// `E` and an exponent `Sign? Digit+` (the number forms of `f32::from_str`).
/// The value is the mantissa's digits shifted by the exponent: the integer
/// part's digits plus eight further places are kept.
pub open spec fn unsigned_decimal_units(body: Seq<u8>) -> Option<nat> {
    let ke = first_exp(body);
    let mant = body.take(ke as int);
    let e = if ke < body.len() {
        int_value(body.skip(ke + 1 as int), true)
    } else {
        Some(0int)
    };
    let k = first_dot(mant);
    let ip = mant.take(k as int);
    let fp = if k < mant.len() {
        mant.skip(k + 1 as int)
    } else {
        Seq::<u8>::empty()
    };
    if all_digits(ip) && all_digits(fp) && ip.len() + fp.len() >= 1 && e is Some {
        Some(digits_value(pad_digits(ip + fp, ip.len() + 8 + e->Some_0)))
    } else {
        None
    }
}

/// The part of `s` after an optional leading `+` or `-`.
pub open spec fn unsigned_part(s: Seq<u8>) -> Seq<u8> {
    if s.len() > 0 && (s[0] == 45 || s[0] == 43) {
        s.drop_first()
    } else {
        s
    }
}

/// A number read from the wire: a value in units of 10^-8, or what the text
/// stands for when it has none.
#[derive(Debug, Clone, Copy, PartialEq, Eq, PartialOrd, Ord, Hash, Structural)]
pub enum Amount {
    /// A value of `i64` units of 10^-8.
    Units(i64),
    /// A number whose magnitude exceeds `i64::MAX` units.
    OutOfRange { negative: bool },
    /// `inf` or `infinity`, in any ASCII case.
    Infinite { negative: bool },
    /// `nan`, in any ASCII case.
    NotANumber,
}

/// Byte `b` with `A`..`Z` taken to `a`..`z`.
pub open spec fn lower_byte(b: u8) -> int {
    if 65 <= b <= 90 {
        b + 32
    } else {
        b as int
    }
}

/// Whether `s` spells the lower-case ASCII word `w`, in any ASCII case.
pub open spec fn is_word(s: Seq<u8>, w: Seq<u8>) -> bool {
    s.len() == w.len() && forall|i: int| 0 <= i < s.len() ==> #[trigger] lower_byte(s[i]) == w[i]
}

/// `inf` or `infinity`, in any ASCII case.
pub open spec fn is_infinity_text(s: Seq<u8>) -> bool {
    is_word(s, seq![105u8, 110, 102]) || is_word(s, seq![105u8, 110, 102, 105, 110, 105, 116, 121])
}

/// `nan`, in any ASCII case.
pub open spec fn is_nan_text(s: Seq<u8>) -> bool {
    is_word(s, seq![110u8, 97, 110])
}

/// The number a text stands for, with an optional leading `+` or `-`: the
/// texts of `f32::from_str` (decimal numbers with an optional exponent,
/// `inf`, `infinity`, `nan`) give `Some`, anything else `None`.  A decimal
/// number is kept exactly in units of 10^-8, digits past the eighth
/// fractional place dropped; beyond `i64::MAX` units it is `OutOfRange`.
pub open spec fn decimal_amount(s: Seq<u8>) -> Option<Amount> {
    let neg = s.len() > 0 && s[0] == 45;
    let body = unsigned_part(s);
    if is_infinity_text(body) {
        Some(Amount::Infinite { negative: neg })
    } else if is_nan_text(body) {
        Some(Amount::NotANumber)
    } else {
        match unsigned_decimal_units(body) {
            Some(v) => if v <= i64::MAX {
                Some(
                    Amount::Units(
                        (if neg {
                            -v
                        } else {
                            v as int
                        }) as i64,
                    ),
                )
            } else {
                Some(Amount::OutOfRange { negative: neg })
            },
            None => None,
        }
    }
}

/// Rust's integer grammar for `from_str`: an optional `+` (or `-` when
/// `signed`), then one or more ASCII digits.
pub open spec fn int_value(s: Seq<u8>, signed: bool) -> Option<int> {
    let neg = signed && s.len() > 0 && s[0] == 45;
    let has_sign = s.len() > 0 && (s[0] == 43 || (signed && s[0] == 45));
    let rest = if has_sign {
        s.drop_first()
    } else {
        s
    };
    if rest.len() >= 1 && all_digits(rest) {
        Some(
            if neg {
                -digits_value(rest)
            } else {
                digits_value(rest) as int
            },
        )
    } else {
        None
    }
}

proof fn lemma_digits_prefix(s: Seq<u8>, i: int)
    requires
        0 <= i <= s.len(),
        all_digits(s),
    ensures
        digits_value(s) >= digits_value(s.take(i)),
    decreases s.len(),
{
    if i < s.len() {
        let d = s.drop_last();
        assert(d.take(i) =~= s.take(i));
        lemma_digits_prefix(d, i);
        assert(s.take(s.len() as int) =~= s);
    } else {
        assert(s.take(i) =~= s);
    }
}

proof fn lemma_pow10_positive(n: nat)
    ensures
        pow10(n) >= 1,
    decreases n,
{
    if n > 0 {
        lemma_pow10_positive((n - 1) as nat);
    }
}

proof fn lemma_first_dot(s: Seq<u8>, i: int)
    requires
        0 <= i <= s.len(),
        forall|j: int| 0 <= j < i ==> s[j] != 46,
        i == s.len() || s[i] == 46,
    ensures
        first_dot(s) == i,
    decreases s.len(),
{
    if s.len() > 0 && i > 0 {
        lemma_first_dot(s.drop_first(), i - 1);
    }
}

/// Value of the digits `s[lo..hi]` when they are all digits and the value is
/// at most `limit`.
fn digit_run(s: &[u8], lo: usize, hi: usize, limit: u64) -> (r: Option<u64>)
    requires
        lo <= hi <= s@.len(),
        limit <= 1_000_000_000_000_000_000,
    ensures
        r matches Some(v) ==> all_digits(s@.subrange(lo as int, hi as int)) && v == digits_value(
            s@.subrange(lo as int, hi as int),
        ) && v <= limit,
        r is None ==> !all_digits(s@.subrange(lo as int, hi as int)) || digits_value(
            s@.subrange(lo as int, hi as int),
        ) > limit,
{
    let mut acc: u64 = 0;
    let mut i = lo;
    while i < hi
        invariant
            lo <= i <= hi <= s@.len(),
            limit <= 1_000_000_000_000_000_000,
            all_digits(s@.subrange(lo as int, i as int)),
            acc == digits_value(s@.subrange(lo as int, i as int)),
            acc <= limit,
        decreases hi - i,
    {
        let b = s[i];
        let ghost pre = s@.subrange(lo as int, i as int);
        let ghost next = s@.subrange(lo as int, i + 1);
        assert(next.drop_last() =~= pre);
        assert(next.take((i - lo) as int) =~= pre);
        if b < 48 || b > 57 {
            assert(!is_digit_byte(next[(i - lo) as int]));
            assert(!all_digits(s@.subrange(lo as int, hi as int))) by {
                assert(s@.subrange(lo as int, hi as int)[(i - lo) as int] == b);
            }
            return None;
        }
        let v: u64 = acc * 10 + (b - 48) as u64;
        if v > limit {
            proof {
                let full = s@.subrange(lo as int, hi as int);
                if all_digits(full) {
                    lemma_digits_prefix(full, (i + 1 - lo) as int);
                    assert(full.take((i + 1 - lo) as int) =~= next);
                }
            }
            return None;
        }
        acc = v;
        i = i + 1;
    }
    Some(acc)
}

/// Whether `s[lo..hi]` are all ASCII digits.
fn all_digit_run(s: &[u8], lo: usize, hi: usize) -> (r: bool)
    requires
        lo <= hi <= s@.len(),
    ensures
        r == all_digits(s@.subrange(lo as int, hi as int)),
{
    let mut i = lo;
    while i < hi
        invariant
            lo <= i <= hi <= s@.len(),
            all_digits(s@.subrange(lo as int, i as int)),
        decreases hi - i,
    {
        let b = s[i];
        if b < 48 || b > 57 {
            assert(s@.subrange(lo as int, hi as int)[(i - lo) as int] == b);
            return false;
        }
        assert(forall|j: int|
            0 <= j < (i + 1 - lo) ==> #[trigger] s@.subrange(lo as int, i + 1)[j] == s@[lo + j]);
        i = i + 1;
    }
    true
}

/// Digits read one after another: the value of a concatenation.
#[verifier::spinoff_prover]
proof fn lemma_digits_concat(a: Seq<u8>, b: Seq<u8>)
    ensures
        digits_value(a + b) == digits_value(a) * pow10(b.len()) + digits_value(b),
    decreases b.len(),
{
    if b.len() == 0 {
        assert(a + b =~= a);
        assert(pow10(0) == 1);
        assert(digits_value(b) == 0);
        assert(digits_value(a) * pow10(b.len()) == digits_value(a));
    } else {
        let bl = b.drop_last();
        let da = digits_value(a);
        let pbl = pow10(bl.len());
        let c = (b.last() - 48) as nat;
        assert((a + b).drop_last() =~= a + bl);
        assert((a + b).last() == b.last());
        lemma_digits_concat(a, bl);
        let vab = digits_value(a + bl);
        let vbl = digits_value(bl);
        assert(vab == da * pbl + vbl);
        assert(digits_value(a + b) == vab * 10 + c);
        assert(digits_value(b) == vbl * 10 + c);
        assert(pow10(b.len()) == 10 * pbl);
        assert(da * pow10(b.len()) == (da * pbl) * 10) by (nonlinear_arith)
            requires
                pow10(b.len()) == 10 * pbl,
        ;
        assert(digits_value(a + b) == da * pow10(b.len()) + digits_value(b));
    }
}

/// A run of `0` digits is worth nothing.
proof fn lemma_zero_digits(s: Seq<u8>)
    requires
        forall|i: int| 0 <= i < s.len() ==> #[trigger] s[i] == 48,
    ensures
        digits_value(s) == 0,
    decreases s.len(),
{
    if s.len() > 0 {
        assert forall|i: int| 0 <= i < s.len() - 1 implies #[trigger] s.drop_last()[i] == 48 by {
            assert(s.drop_last()[i] == s[i]);
        }
        lemma_zero_digits(s.drop_last());
    }
}

/// Digits starting with a nonzero one are worth at least 10^(len-1).
proof fn lemma_leading_digit(s: Seq<u8>)
    requires
        s.len() >= 1,
        all_digits(s),
        s[0] != 48,
    ensures
        digits_value(s) >= pow10((s.len() - 1) as nat),
{
    let head = s.take(1);
    let rest = s.skip(1);
    assert(head + rest =~= s);
    lemma_digits_concat(head, rest);
    assert(head.drop_last() =~= Seq::<u8>::empty());
    assert(head.len() == 1);
    assert(head.last() == s[0]);
    assert(digits_value(head.drop_last()) == 0);
    assert(is_digit_byte(s[0]));
    assert(digits_value(head) == (s[0] - 48) as nat);
    assert(digits_value(head) >= 1);
    assert(digits_value(head) * pow10(rest.len()) >= pow10(rest.len())) by (nonlinear_arith)
        requires
            digits_value(head) >= 1,
    ;
}

/// Leading `0` digits do not change the value.
proof fn lemma_skip_zeros(p: Seq<u8>, z: int)
    requires
        0 <= z <= p.len(),
        forall|j: int| 0 <= j < z ==> #[trigger] p[j] == 48,
    ensures
        digits_value(p) == digits_value(p.skip(z)),
{
    let head = p.take(z);
    let tail = p.skip(z);
    assert(head + tail =~= p);
    assert forall|j: int| 0 <= j < head.len() implies #[trigger] head[j] == 48 by {
        assert(head[j] == p[j]);
    }
    lemma_zero_digits(head);
    lemma_digits_concat(head, tail);
    assert(digits_value(head) * pow10(tail.len()) == 0) by (nonlinear_arith)
        requires
            digits_value(head) == 0,
    ;
}

/// `10^19` exceeds `i64::MAX`.
proof fn lemma_pow10_19()
    ensures
        pow10(19) == 10_000_000_000_000_000_000,
{
    reveal_with_fuel(pow10, 20);
}

/// Largest exponent magnitude that is told apart: beyond it every nonzero
/// mantissa is out of range or below one unit, whatever the input length.
const EXP_CAP: i128 = 1_000_000_000_000_000_000_000_000_000_000;

/// Exponent `Sign? Digit+` in `s[lo..hi]`, its magnitude capped at
/// `EXP_CAP`.
fn exponent_value(s: &[u8], lo: usize, hi: usize) -> (r: Option<i128>)
    requires
        lo <= hi <= s@.len(),
    ensures
        r is None <==> int_value(s@.subrange(lo as int, hi as int), true) is None,
        r matches Some(v) ==> {
            let x = int_value(s@.subrange(lo as int, hi as int), true)->Some_0;
            v == (if x > EXP_CAP {
                EXP_CAP as int
            } else if x < -EXP_CAP {
                -EXP_CAP
            } else {
                x
            })
        },
{
    let ghost t = s@.subrange(lo as int, hi as int);
    assert(lo < hi ==> t[0] == s@[lo as int]);
    let has_sign = lo < hi && (s[lo] == 43u8 || s[lo] == 45u8);
    let neg = lo < hi && s[lo] == 45u8;
    let start: usize = if has_sign {
        lo + 1
    } else {
        lo
    };
    let ghost rest = if has_sign {
        t.drop_first()
    } else {
        t
    };
    assert(rest =~= s@.subrange(start as int, hi as int));
    if start >= hi {
        assert(rest.len() == 0);
        return None;
    }
    let mut acc: i128 = 0;
    let mut i = start;
    assert(s@.subrange(start as int, start as int) =~= Seq::<u8>::empty());
    proof {
        if all_digits(rest) {
            assert(int_value(t, true) == Some(
                if neg {
                    -digits_value(rest)
                } else {
                    digits_value(rest) as int
                },
            ));
        }
    }
    while i < hi
        invariant
            lo <= start <= i <= hi <= s@.len(),
            start < hi,
            int_value(s@.subrange(lo as int, hi as int), true) is None <==> !all_digits(
                s@.subrange(start as int, hi as int),
            ),
            all_digits(s@.subrange(start as int, hi as int)) ==> int_value(
                s@.subrange(lo as int, hi as int),
                true,
            ) == Some(
                if neg {
                    -digits_value(s@.subrange(start as int, hi as int))
                } else {
                    digits_value(s@.subrange(start as int, hi as int)) as int
                },
            ),
            all_digits(s@.subrange(start as int, i as int)),
            acc == (if digits_value(s@.subrange(start as int, i as int)) > EXP_CAP {
                EXP_CAP as int
            } else {
                digits_value(s@.subrange(start as int, i as int)) as int
            }),
        decreases hi - i,
    {
        let b = s[i];
        let ghost pre = s@.subrange(start as int, i as int);
        let ghost next = s@.subrange(start as int, i + 1);
        assert(next.drop_last() =~= pre);
        assert(next.last() == b);
        if b < 48 || b > 57 {
            assert(!all_digits(s@.subrange(start as int, hi as int))) by {
                assert(s@.subrange(start as int, hi as int)[(i - start) as int] == b);
            }
            return None;
        }
        assert forall|j: int| 0 <= j < next.len() implies is_digit_byte(#[trigger] next[j]) by {
            if j < pre.len() {
                assert(next[j] == pre[j]);
            }
        }
        let v: i128 = acc * 10 + (b - 48) as i128;
        acc = if v > EXP_CAP {
            EXP_CAP
        } else {
            v
        };
        i = i + 1;
    }
    assert(s@.subrange(start as int, i as int) =~= s@.subrange(start as int, hi as int));
    if neg {
        Some(-acc)
    } else {
        Some(acc)
    }
}

/// The mantissa digits `s[il..ih]` followed by `s[fl..fh]`.
spec fn joined(s: Seq<u8>, il: int, ih: int, fl: int, fh: int) -> Seq<u8> {
    s.subrange(il, ih) + s.subrange(fl, fh)
}

/// Digit `j` of the mantissa digits `s[il..ih] + s[fl..fh]`.
fn mantissa_digit(s: &[u8], il: usize, ih: usize, fl: usize, fh: usize, j: usize) -> (r: u8)
    requires
        il <= ih <= s@.len(),
        fl <= fh <= s@.len(),
        j < (ih - il) + (fh - fl),
    ensures
        r == joined(s@, il as int, ih as int, fl as int, fh as int)[j as int],
{
    if j < ih - il {
        s[il + j]
    } else {
        s[fl + (j - (ih - il))]
    }
}

/// Number of leading `0` digits of the mantissa digits.
fn leading_zeros(s: &[u8], il: usize, ih: usize, fl: usize, fh: usize) -> (z: usize)
    requires
        il <= ih <= s@.len(),
        ih <= fl,
        fl <= fh <= s@.len(),
    ensures
        z <= (ih - il) + (fh - fl),
        forall|j: int|
            0 <= j < z ==> #[trigger] joined(s@, il as int, ih as int, fl as int, fh as int)[j]
                == 48,
        z < (ih - il) + (fh - fl) ==> joined(s@, il as int, ih as int, fl as int, fh as int)[z as int]
            != 48,
{
    let total = (ih - il) + (fh - fl);
    let mut z: usize = 0;
    while z < total
        invariant
            il <= ih <= s@.len(),
            fl <= fh <= s@.len(),
            ih <= fl,
            z <= total == (ih - il) + (fh - fl),
            forall|j: int|
                0 <= j < z ==> #[trigger] joined(s@, il as int, ih as int, fl as int, fh as int)[j]
                    == 48,
        decreases total - z,
    {
        if mantissa_digit(s, il, ih, fl, fh, z) != 48u8 {
            return z;
        }
        z = z + 1;
    }
    z
}

/// Value of the `m` mantissa digits that follow the first `z`, read with
/// `0` past the end of the mantissa.
fn read_padded(s: &[u8], il: usize, ih: usize, fl: usize, fh: usize, z: usize, m: usize) -> (r:
    u64)
    requires
        il <= ih <= s@.len(),
        ih <= fl,
        fl <= fh <= s@.len(),
        z <= (ih - il) + (fh - fl),
        m <= 19,
        all_digits(joined(s@, il as int, ih as int, fl as int, fh as int)),
    ensures
        r == digits_value(
            pad_digits(joined(s@, il as int, ih as int, fl as int, fh as int), z + m).skip(z as int),
        ),
{
    let total = (ih - il) + (fh - fl);
    let ghost ds = joined(s@, il as int, ih as int, fl as int, fh as int);
    let ghost tail = pad_digits(ds, z + m).skip(z as int);
    assert(tail.len() == m);
    let mut acc: u64 = 0;
    let mut t: usize = 0;
    assert(tail.take(0) =~= Seq::<u8>::empty());
    while t < m
        invariant
            il <= ih <= s@.len(),
            fl <= fh <= s@.len(),
            ih <= fl,
            z <= total == (ih - il) + (fh - fl),
            ds == joined(s@, il as int, ih as int, fl as int, fh as int),
            ds.len() == total,
            all_digits(ds),
            t <= m <= 19,
            tail == pad_digits(ds, z + m).skip(z as int),
            tail.len() == m,
            acc == digits_value(tail.take(t as int)),
            acc < pow10(t as nat),
        decreases m - t,
    {
        let d: u64 = if t < total - z {
            let b = mantissa_digit(s, il, ih, fl, fh, z + t);
            proof {
                assert(is_digit_byte(ds[(z + t) as int]));
            }
            (b - 48u8) as u64
        } else {
            0
        };
        proof {
            assert(tail[t as int] == pad_digits(ds, z + m)[(z + t) as int]);
            assert(d == tail[t as int] - 48);
            assert(tail.take(t + 1).drop_last() =~= tail.take(t as int));
            assert(tail.take(t + 1).last() == tail[t as int]);
            assert(pow10((t + 1) as nat) == 10 * pow10(t as nat));
            lemma_pow10_monotone((t + 1) as nat, 19);
            lemma_pow10_19();
        }
        acc = acc * 10 + d;
        t = t + 1;
    }
    assert(tail.take(m as int) =~= tail);
    acc
}

/// Where the parts of a number lie in `s`: the unsigned part starts at
/// `start`, the dot (or the end of the integer digits) is at `k`, the
/// fraction digits start at `fs`, and the exponent marker (or the end) is
/// at `ke`.
fn number_layout(s: &[u8]) -> (r: (usize, usize, usize, usize))
    ensures
        r.0 <= r.1 <= r.2 <= r.3 <= s@.len(),
        r.0 == (if s@.len() > 0 && (s@[0] == 45 || s@[0] == 43) {
            1int
        } else {
            0
        }),
        s@.subrange(r.0 as int, s@.len() as int) == unsigned_part(s@),
        first_exp(unsigned_part(s@)) == r.3 - r.0,
        first_dot(unsigned_part(s@).take(r.3 - r.0)) == r.1 - r.0,
        r.2 == (if r.1 < r.3 {
            r.1 + 1
        } else {
            r.3 as int
        }),
{
    let n = s.len();
    let start: usize = if n > 0 && (s[0] == 45u8 || s[0] == 43u8) {
        1
    } else {
        0
    };
    let ghost body = unsigned_part(s@);
    assert(body =~= s@.subrange(start as int, n as int));
    let mut ke = start;
    while ke < n && s[ke] != 101u8 && s[ke] != 69u8
        invariant
            start <= ke <= n == s@.len(),
            forall|j: int| start <= j < ke ==> s@[j] != 101 && s@[j] != 69,
        decreases n - ke,
    {
        ke = ke + 1;
    }
    proof {
        lemma_first_exp(body, (ke - start) as int);
    }
    let ghost mant = body.take((ke - start) as int);
    assert(mant =~= s@.subrange(start as int, ke as int));
    let mut k = start;
    while k < ke && s[k] != 46u8
        invariant
            start <= k <= ke <= n == s@.len(),
            forall|j: int| start <= j < k ==> s@[j] != 46,
        decreases ke - k,
    {
        k = k + 1;
    }
    proof {
        lemma_first_dot(mant, (k - start) as int);
    }
    let fs: usize = if k < ke {
        k + 1
    } else {
        ke
    };
    (start, k, fs, ke)
}

/// Value of the mantissa digits `s[il..ih] + s[fl..fh]` shifted by the
/// exponent `x` (given capped as `e`), truncated to units of 10^-8; `None`
/// when it exceeds `i64::MAX`.
#[verifier::spinoff_prover]
fn shifted_units(
    s: &[u8],
    il: usize,
    ih: usize,
    fl: usize,
    fh: usize,
    e: i128,
    Ghost(x): Ghost<int>,
) -> (r: Option<u64>)
    requires
        il <= ih <= fl <= fh <= s@.len(),
        all_digits(joined(s@, il as int, ih as int, fl as int, fh as int)),
        e == (if x > EXP_CAP {
            EXP_CAP as int
        } else if x < -EXP_CAP {
            -EXP_CAP
        } else {
            x
        }),
    ensures
        r matches Some(v) ==> v <= i64::MAX && v == digits_value(
            pad_digits(joined(s@, il as int, ih as int, fl as int, fh as int), (ih - il) + 8 + x),
        ),
        r is None ==> digits_value(
            pad_digits(joined(s@, il as int, ih as int, fl as int, fh as int), (ih - il) + 8 + x),
        ) > i64::MAX,
{
    let ghost ds = joined(s@, il as int, ih as int, fl as int, fh as int);
    let ghost nn: int = (ih - il) + 8 + x;
    let ghost padded = pad_digits(ds, nn);
    let total = (ih - il) + (fh - fl);
    let z = leading_zeros(s, il, ih, fl, fh);
    if z == total {
        proof {
            assert forall|j: int| 0 <= j < padded.len() implies #[trigger] padded[j] == 48 by {
                if j < ds.len() {
                    assert(ds[j] == 48);
                }
            }
            lemma_zero_digits(padded);
        }
        return Some(0);
    }
    let m: i128 = (ih - il) as i128 + 8 + e - z as i128;
    proof {
        if x > EXP_CAP {
            assert(nn - z > 19);
            assert(m > 19);
        } else if x < -EXP_CAP {
            assert(nn - z < 0);
            assert(m < 0);
        } else {
            assert(nn - z == m);
        }
    }
    if m <= 0 {
        proof {
            assert forall|j: int| 0 <= j < padded.len() implies #[trigger] padded[j] == 48 by {
                assert(j < z);
                assert(ds[j] == 48);
            }
            lemma_zero_digits(padded);
        }
        return Some(0);
    }
    proof {
        assert(forall|j: int| 0 <= j < z ==> #[trigger] padded[j] == ds[j]);
        lemma_skip_zeros(padded, z as int);
        assert(all_digits(padded));
    }
    if m > 19 {
        proof {
            let tail = padded.skip(z as int);
            assert(tail[0] == ds[z as int]);
            assert(all_digits(tail));
            lemma_leading_digit(tail);
            lemma_pow10_19();
            lemma_pow10_monotone(19, (tail.len() - 1) as nat);
        }
        return None;
    }
    let acc = read_padded(s, il, ih, fl, fh, z, m as usize);
    assert(z + (m as usize) == nn);
    if acc > 9_223_372_036_854_775_807u64 {
        return None;
    }
    Some(acc)
}

/// What `unsigned_decimal_units` reads, stated over the positions that
/// `number_layout` finds.
proof fn lemma_units_layout(s: Seq<u8>, start: int, k: int, fs: int, ke: int)
    requires
        0 <= start <= k <= fs <= ke <= s.len(),
        s.subrange(start, s.len() as int) == unsigned_part(s),
        first_exp(unsigned_part(s)) == ke - start,
        first_dot(unsigned_part(s).take(ke - start)) == k - start,
        fs == (if k < ke {
            k + 1
        } else {
            ke
        }),
    ensures
        unsigned_decimal_units(unsigned_part(s)) == (if all_digits(s.subrange(start, k))
            && all_digits(s.subrange(fs, ke)) && (k - start) + (ke - fs) >= 1 && (ke < s.len()
            ==> int_value(s.subrange(ke + 1, s.len() as int), true) is Some) {
            Some(
                digits_value(
                    pad_digits(
                        joined(s, start, k, fs, ke),
                        (k - start) + 8 + (if ke < s.len() {
                            int_value(s.subrange(ke + 1, s.len() as int), true)->Some_0
                        } else {
                            0
                        }),
                    ),
                ),
            )
        } else {
            None
        }),
{
    let body = unsigned_part(s);
    let mant = body.take(ke - start);
    assert(mant =~= s.subrange(start, ke));
    assert(mant.take(k - start) =~= s.subrange(start, k));
    if k < ke {
        assert(mant.skip(k - start + 1) =~= s.subrange(fs, ke));
    } else {
        assert(s.subrange(fs, ke) =~= Seq::<u8>::empty());
    }
    if ke < s.len() {
        assert(body.skip(ke - start + 1) =~= s.subrange(ke + 1, s.len() as int));
    }
}

/// Whether byte `i` of `s` is `c` up to ASCII case (`c` lower case).
fn lower_is(s: &[u8], i: usize, c: u8) -> (r: bool)
    requires
        i < s@.len(),
    ensures
        r == (lower_byte(s@[i as int]) == c),
{
    let b = s[i];
    if 65 <= b && b <= 90 {
        b + 32 == c
    } else {
        b == c
    }
}

/// Whether `s[start..]` is `inf`, `infinity` or `nan` in any ASCII case.
fn word_kind(s: &[u8], start: usize) -> (r: (bool, bool))
    requires
        start <= s@.len(),
    ensures
        r.0 == is_infinity_text(s@.subrange(start as int, s@.len() as int)),
        r.1 == is_nan_text(s@.subrange(start as int, s@.len() as int)),
{
    let ghost w = s@.subrange(start as int, s@.len() as int);
    let k = s.len() - start;
    let ghost inf3 = seq![105u8, 110, 102];
    let ghost inf8 = seq![105u8, 110, 102, 105, 110, 105, 116, 121];
    let ghost nan3 = seq![110u8, 97, 110];
    assert(forall|i: int| 0 <= i < w.len() ==> #[trigger] w[i] == s@[start + i]);
    if k == 3 {
        let a = lower_is(s, start, 105) && lower_is(s, start + 1, 110) && lower_is(s, start + 2, 102);
        let b = lower_is(s, start, 110) && lower_is(s, start + 1, 97) && lower_is(s, start + 2, 110);
        proof {
            assert(a == is_word(w, inf3)) by {
                if a {
                    assert forall|i: int| 0 <= i < 3 implies #[trigger] lower_byte(w[i]) == inf3[i] by {
                        assert(w[i] == s@[start + i]);
                    }
                } else {
                    assert(!(lower_byte(w[0]) == inf3[0] && lower_byte(w[1]) == inf3[1] && lower_byte(w[2]) == inf3[2]));
                }
            }
            assert(b == is_word(w, nan3)) by {
                if b {
                    assert forall|i: int| 0 <= i < 3 implies #[trigger] lower_byte(w[i]) == nan3[i] by {
                        assert(w[i] == s@[start + i]);
                    }
                } else {
                    assert(!(lower_byte(w[0]) == nan3[0] && lower_byte(w[1]) == nan3[1] && lower_byte(w[2]) == nan3[2]));
                }
            }
            assert(!is_word(w, inf8));
        }
        (a, b)
    } else if k == 8 {
        let a = lower_is(s, start, 105) && lower_is(s, start + 1, 110) && lower_is(s, start + 2, 102)
            && lower_is(s, start + 3, 105) && lower_is(s, start + 4, 110) && lower_is(s, start + 5, 105)
            && lower_is(s, start + 6, 116) && lower_is(s, start + 7, 121);
        proof {
            assert(a == is_word(w, inf8)) by {
                if a {
                    assert forall|i: int| 0 <= i < 8 implies #[trigger] lower_byte(w[i]) == inf8[i] by {
                        assert(w[i] == s@[start + i]);
                    }
                } else {
                    assert(!(lower_byte(w[0]) == inf8[0] && lower_byte(w[1]) == inf8[1] && lower_byte(w[2]) == inf8[2]
                        && lower_byte(w[3]) == inf8[3] && lower_byte(w[4]) == inf8[4] && lower_byte(w[5]) == inf8[5]
                        && lower_byte(w[6]) == inf8[6] && lower_byte(w[7]) == inf8[7]));
                }
            }
            assert(!is_word(w, inf3));
            assert(!is_word(w, nan3));
        }
        (a, false)
    } else {
        (false, false)
    }
}

/// Parses a number such as `3250`, `1234.5`, `-0.25`, `.5`, `1e3`,
/// `2.5E-1`, `inf` or `NaN`.
#[verifier::spinoff_prover]
pub fn parse_decimal_amount(s: &[u8]) -> (r: Option<Amount>)
    ensures
        r == decimal_amount(s@),
{
    let n = s.len();
    let neg = n > 0 && s[0] == 45u8;
    let sign: usize = if n > 0 && (s[0] == 45u8 || s[0] == 43u8) {
        1
    } else {
        0
    };
    proof {
        assert(unsigned_part(s@) =~= s@.subrange(sign as int, n as int));
    }
    let (is_inf, is_nan) = word_kind(s, sign);
    if is_inf {
        return Some(Amount::Infinite { negative: neg });
    }
    if is_nan {
        return Some(Amount::NotANumber);
    }
    let (start, k, fs, ke) = number_layout(s);
    proof {
        lemma_units_layout(s@, start as int, k as int, fs as int, ke as int);
    }
    if !all_digit_run(s, start, k) || !all_digit_run(s, fs, ke) {
        return None;
    }
    if k == start && ke == fs {
        return None;
    }
    let e: i128 = if ke < n {
        match exponent_value(s, ke + 1, n) {
            Some(v) => v,
            None => return None,
        }
    } else {
        0
    };
    let ghost x: int = if ke < n {
        int_value(s@.subrange(ke + 1, n as int), true)->Some_0
    } else {
        0
    };
    let units = match shifted_units(s, start, k, fs, ke, e, Ghost(x)) {
        Some(u) => u,
        None => return Some(Amount::OutOfRange { negative: neg }),
    };
    let v: i64 = units as i64;
    if neg {
        Some(Amount::Units(-v))
    } else {
        Some(Amount::Units(v))
    }
}

proof fn lemma_first_exp(s: Seq<u8>, i: int)
    requires
        0 <= i <= s.len(),
        forall|j: int| 0 <= j < i ==> s[j] != 101 && s[j] != 69,
        i == s.len() || s[i] == 101 || s[i] == 69,
    ensures
        first_exp(s) == i,
    decreases s.len(),
{
    if s.len() > 0 && i > 0 {
        lemma_first_exp(s.drop_first(), i - 1);
    }
}

/// Digits of length n are below 10^n.
pub(crate) proof fn lemma_digits_bound(s: Seq<u8>)
    requires
        all_digits(s),
    ensures
        digits_value(s) < pow10(s.len()),
    decreases s.len(),
{
    if s.len() > 0 {
        lemma_digits_bound(s.drop_last());
        assert(pow10(s.len()) == 10 * pow10((s.len() - 1) as nat));
    }
}

/// 10^a <= 10^b for a <= b.
pub(crate) proof fn lemma_pow10_monotone(a: nat, b: nat)
    requires
        a <= b,
    ensures
        pow10(a) <= pow10(b),
    decreases b,
{
    if a < b {
        lemma_pow10_monotone(a, (b - 1) as nat);
        lemma_pow10_positive((b - 1) as nat);
    }
}

/// Parses `s[lo..hi]` with Rust's integer grammar; `signed` allows a
/// leading `-`.  `None` when the text is not a number or its magnitude
/// exceeds `limit`.
pub fn parse_int_range(s: &[u8], lo: usize, hi: usize, signed: bool, limit: u64) -> (r: Option<i64>)
    requires
        lo <= hi <= s@.len(),
        limit <= 1_000_000_000_000_000_000,
    ensures
        r matches Some(v) ==> int_value(s@.subrange(lo as int, hi as int), signed) == Some(
            v as int,
        ),
        r is None ==> int_value(s@.subrange(lo as int, hi as int), signed) is None || (int_value(
            s@.subrange(lo as int, hi as int),
            signed,
        ) matches Some(x) && (x > limit || -x > limit)),
{
    let ghost t = s@.subrange(lo as int, hi as int);
    let has_sign = lo < hi && (s[lo] == 43u8 || (signed && s[lo] == 45u8));
    let neg = signed && lo < hi && s[lo] == 45u8;
    let start: usize = if has_sign {
        lo + 1
    } else {
        lo
    };
    assert(s@.subrange(start as int, hi as int) =~= (if has_sign {
        t.drop_first()
    } else {
        t
    }));
    if start >= hi {
        return None;
    }
    match digit_run(s, start, hi, limit) {
        Some(v) => {
            let x: i64 = v as i64;
            if neg {
                Some(-x)
            } else {
                Some(x)
            }
        },
        None => None,
    }
}

} // verus!
