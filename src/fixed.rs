use vstd::prelude::*;

use crate::scalar::Scalar;
use rand::Rng;

verus! {

/// The number of steps in one unit: a `Fixed` counts millionths.
pub const SCALE: i64 = 1_000_000;

/// `v`, held to the range of `i64`.
pub open spec fn clamp(v: int) -> i64 {
    if v > i64::MAX {
        i64::MAX
    } else if v < i64::MIN {
        i64::MIN
    } else {
        v as i64
    }
}

/// `p / d`, rounded toward zero.
pub open spec fn trunc_div(p: int, d: int) -> int {
    if p >= 0 {
        p / d
    } else {
        -((-p) / d)
    }
}

/// A real number held as a whole count of millionths.
///
/// Addition, subtraction, multiplication and division by a count round
/// toward zero to the nearest millionth and saturate at the ends of the range.
#[derive(Clone, Copy, Debug, PartialEq, Eq, Structural)]
pub struct Fixed {
    pub micros: i64,
}

/// Relies on `rand::thread_rng` and `Rng::gen_range`: a value drawn from
/// `low..high`, which panics only when that range is empty.
#[verifier::external_body]
fn draw_below(high: i64) -> (r: i64)
    requires
        high > 0,
    ensures
        0 <= r < high,
{
    rand::thread_rng().gen_range(0..high)
}

impl Fixed {
    /// A number drawn at random from `[0, 1)`.
    pub fn random_unit() -> (r: Fixed)
        ensures
            0 <= r.micros < SCALE,
    {
        Fixed { micros: draw_below(SCALE) }
    }
}

fn clamp_wide(v: i128) -> (r: i64)
    ensures
        r == clamp(v as int),
{
    if v > i64::MAX as i128 {
        i64::MAX
    } else if v < i64::MIN as i128 {
        i64::MIN
    } else {
        v as i64
    }
}

fn trunc_div_wide(p: i128, d: i128) -> (r: i128)
    requires
        d > 0,
        p > i128::MIN,
    ensures
        r == trunc_div(p as int, d as int),
{
    if p >= 0 {
        p / d
    } else {
        let q = (-p) / d;
        -q
    }
}

impl Scalar for Fixed {
    open spec fn zero_spec() -> Fixed {
        Fixed { micros: 0 }
    }

    open spec fn add_spec(self, o: Fixed) -> Fixed {
        Fixed { micros: clamp(self.micros + o.micros) }
    }

    open spec fn sub_spec(self, o: Fixed) -> Fixed {
        Fixed { micros: clamp(self.micros - o.micros) }
    }

    open spec fn mul_spec(self, o: Fixed) -> Fixed {
        Fixed { micros: clamp(trunc_div(self.micros * o.micros, SCALE as int)) }
    }

    open spec fn div_count_spec(self, n: nat) -> Fixed {
        Fixed { micros: clamp(trunc_div(self.micros as int, n as int)) }
    }

    open spec fn positive_spec(self) -> bool {
        self.micros > 0
    }

    open spec fn parse_spec(s: Seq<char>) -> Option<Fixed> {
        decimal(s)
    }

    fn zero() -> (r: Fixed) {
        Fixed { micros: 0 }
    }

    fn add(self, o: Fixed) -> (r: Fixed) {
        Fixed { micros: clamp_wide(self.micros as i128 + o.micros as i128) }
    }

    fn sub(self, o: Fixed) -> (r: Fixed) {
        Fixed { micros: clamp_wide(self.micros as i128 - o.micros as i128) }
    }

    fn mul(self, o: Fixed) -> (r: Fixed) {
        let a = self.micros as i128;
        let b = o.micros as i128;
        proof {
            let bound: int = 0x8000_0000_0000_0000;
            assert(-bound * bound <= a * b <= bound * bound) by (nonlinear_arith)
                requires
                    -bound <= a <= bound,
                    -bound <= b <= bound,
            ;
        }
        let p = a * b;
        Fixed { micros: clamp_wide(trunc_div_wide(p, SCALE as i128)) }
    }

    fn div_count(self, n: usize) -> (r: Fixed) {
        Fixed { micros: clamp_wide(trunc_div_wide(self.micros as i128, n as i128)) }
    }

    fn is_positive(self) -> (r: bool) {
        self.micros > 0
    }

    fn parse(s: &str) -> (r: Option<Fixed>) {
        parse_decimal(s)
    }
}

pub open spec fn is_digit(c: char) -> bool {
    '0' <= c && c <= '9'
}

pub open spec fn all_digits(s: Seq<char>) -> bool {
    forall|i: int| 0 <= i < s.len() ==> is_digit(#[trigger] s[i])
}

/// The number that a string of decimal digits writes.
pub open spec fn digits_value(s: Seq<char>) -> nat
    decreases s.len(),
{
    if s.len() == 0 {
        0
    } else {
        digits_value(s.drop_last()) * 10 + (s.last() as nat - '0' as nat) as nat
    }
}

/// The first six digits after a decimal point, as millionths; further digits are dropped.
pub open spec fn fraction_micros(f: Seq<char>) -> nat {
    digits_value(Seq::new(6, |i: int| if i < f.len() { f[i] } else { '0' }))
}

/// `s` is digits, a point at index `k`, and digits, with a digit on each side.
pub open spec fn point_at(s: Seq<char>, k: int) -> bool {
    &&& 0 < k < s.len() - 1
    &&& s[k] == '.'
    &&& all_digits(s.take(k))
    &&& all_digits(s.skip(k + 1))
}

/// The millionths that an unsigned decimal writes: digits, optionally
/// followed by a point and more digits.
pub open spec fn unsigned_micros(s: Seq<char>) -> Option<nat> {
    if s.len() > 0 && all_digits(s) {
        Some(digits_value(s) * 1_000_000)
    } else if exists|k: int| point_at(s, k) {
        let k = choose|k: int| point_at(s, k);
        Some(digits_value(s.take(k)) * 1_000_000 + fraction_micros(s.skip(k + 1)))
    } else {
        None
    }
}

/// The millionths that a decimal with an optional leading minus writes.
pub open spec fn signed_micros(s: Seq<char>) -> Option<int> {
    if s.len() > 0 && s[0] == '-' {
        match unsigned_micros(s.skip(1)) {
            Some(u) => Some(-u),
            None => None,
        }
    } else {
        match unsigned_micros(s) {
            Some(u) => Some(u as int),
            None => None,
        }
    }
}

/// The number a decimal text writes, when it is one and fits.
pub open spec fn decimal(s: Seq<char>) -> Option<Fixed> {
    match signed_micros(s) {
        Some(v) => if i64::MIN <= v <= i64::MAX {
            Some(Fixed { micros: v as i64 })
        } else {
            None
        },
        None => None,
    }
}

/// Whole units above this many do not fit in a `Fixed`.
const UNIT_CAP: u64 = 9_223_372_036_854;

fn digit(c: char) -> (r: Option<u64>)
    ensures
        r is Some <==> is_digit(c),
        r matches Some(d) ==> d == c as nat - '0' as nat && d <= 9,
{
    if '0' <= c && c <= '9' {
        Some((c as u32 - '0' as u32) as u64)
    } else {
        None
    }
}

proof fn lemma_digits_step(s: Seq<char>, j: int)
    requires
        0 <= j < s.len(),
    ensures
        digits_value(s.take(j + 1)) == digits_value(s.take(j)) * 10 + (s[j] as nat - '0' as nat) as nat,
{
    assert(s.take(j + 1).drop_last() =~= s.take(j));
}

/// Reads the digits of `s` from `from` on, up to the first non-digit.
/// Returns where they end and their value, or `UNIT_CAP + 1` once that is exceeded.
fn scan_digits(s: &str, n: usize, from: usize) -> (r: (usize, u64))
    requires
        n == s@.len(),
        from <= n,
    ensures
        from <= r.0 <= n,
        all_digits(s@.subrange(from as int, r.0 as int)),
        r.0 < n ==> !is_digit(s@[r.0 as int]),
        r.1 <= UNIT_CAP ==> r.1 == digits_value(s@.subrange(from as int, r.0 as int)),
        r.1 > UNIT_CAP ==> digits_value(s@.subrange(from as int, r.0 as int)) > UNIT_CAP,
{
    let mut i = from;
    let mut acc: u64 = 0;
    while i < n && digit(s.get_char(i)).is_some()
        invariant
            from <= i <= n,
            n == s@.len(),
            all_digits(s@.subrange(from as int, i as int)),
            acc <= UNIT_CAP + 1,
            acc <= UNIT_CAP ==> acc == digits_value(s@.subrange(from as int, i as int)),
            acc > UNIT_CAP ==> digits_value(s@.subrange(from as int, i as int)) > UNIT_CAP,
        decreases n - i,
    {
        let d = match digit(s.get_char(i)) {
            Some(d) => d,
            None => 0,
        };
        let ghost t = s@.subrange(from as int, (i + 1) as int);
        proof {
            assert(t.take((i - from) as int) =~= s@.subrange(from as int, i as int));
            assert(t =~= t.take((i + 1 - from) as int));
            lemma_digits_step(t, (i - from) as int);
        }
        if acc <= UNIT_CAP {
            let next = acc * 10 + d;
            acc = if next > UNIT_CAP {
                UNIT_CAP + 1
            } else {
                next
            };
        }
        i = i + 1;
    }
    (i, acc)
}

/// `10` to the power `j`.
pub open spec fn ten_pow(j: nat) -> nat
    decreases j,
{
    if j == 0 {
        1
    } else {
        10 * ten_pow((j - 1) as nat)
    }
}

/// Reads the digits `s[from..to]` after a decimal point as millionths.
fn fraction_value(s: &str, n: usize, from: usize, to: usize) -> (r: u64)
    requires
        n == s@.len(),
        from <= to <= n,
        all_digits(s@.subrange(from as int, to as int)),
    ensures
        r == fraction_micros(s@.subrange(from as int, to as int)),
        r < 1_000_000,
{
    let ghost f = s@.subrange(from as int, to as int);
    let ghost pad = Seq::new(6, |i: int| if i < f.len() { f[i] } else { '0' });
    let mut frac: u64 = 0;
    let mut j: usize = 0;
    while j < 6
        invariant
            j <= 6,
            n == s@.len(),
            from <= to <= n,
            f == s@.subrange(from as int, to as int),
            all_digits(f),
            pad == Seq::new(6, |i: int| if i < f.len() { f[i] } else { '0' }),
            frac == digits_value(pad.take(j as int)),
            frac < ten_pow(j as nat),
        decreases 6 - j,
    {
        let d: u64 = if j < to - from {
            match digit(s.get_char(from + j)) {
                Some(d) => d,
                None => 0,
            }
        } else {
            0
        };
        proof {
            if j < to - from {
                assert(is_digit(f[j as int]));
            }
            lemma_digits_step(pad, j as int);
            reveal_with_fuel(ten_pow, 7);
            assert(ten_pow(j as nat) <= 100_000);
        }
        frac = frac * 10 + d;
        j = j + 1;
    }
    proof {
        assert(pad.take(6) =~= pad);
        reveal_with_fuel(ten_pow, 7);
    }
    frac
}

/// Reads an unsigned decimal from `from` to the end of `s`, as millionths.
/// `None` when the text is no decimal or its whole part passes `UNIT_CAP`.
fn unsigned_part(s: &str, n: usize, from: usize) -> (r: Option<u64>)
    requires
        n == s@.len(),
        from <= n,
    ensures
        r matches Some(v) ==> unsigned_micros(s@.skip(from as int)) == Some(v as nat),
        r matches Some(v) ==> v <= UNIT_CAP * 1_000_000 + 999_999,
        r is None ==> unsigned_micros(s@.skip(from as int)) is None || unsigned_micros(
            s@.skip(from as int),
        )->0 > UNIT_CAP * 1_000_000 + 999_999,
{
    let ghost u = s@.skip(from as int);
    let (e, units) = scan_digits(s, n, from);
    let ghost kk = (e - from) as int;
    proof {
        assert(s@.subrange(from as int, e as int) =~= u.take(kk));
    }
    if e == from {
        proof {
            assert forall|k: int| !point_at(u, k) by {
                if point_at(u, k) {
                    assert(is_digit(u.take(k)[0]));
                }
            }
            if u.len() > 0 {
                assert(!is_digit(u[0]));
            }
        }
        return None;
    }
    if e == n {
        proof {
            assert(u =~= u.take(kk));
            if units > UNIT_CAP {
                assert(digits_value(u) * 1_000_000 > UNIT_CAP * 1_000_000 + 999_999);
            }
        }
        if units > UNIT_CAP {
            return None;
        }
        return Some(units * 1_000_000);
    }
    if s.get_char(e) != '.' {
        proof {
            assert(!is_digit(u[kk]));
            assert forall|k: int| !point_at(u, k) by {
                if point_at(u, k) {
                    if k < kk {
                        assert(is_digit(u.take(kk)[k]));
                    } else if k > kk {
                        assert(is_digit(u.take(k)[kk]));
                    }
                }
            }
        }
        return None;
    }
    let (f_end, _) = scan_digits(s, n, e + 1);
    let ghost fk = (f_end - e - 1) as int;
    proof {
        assert(!is_digit(u[kk]));
        assert(s@.subrange(e + 1, f_end as int) =~= u.skip(kk + 1).take(fk));
        assert forall|k: int| point_at(u, k) implies k == kk by {
            if k < kk {
                assert(is_digit(u.take(kk)[k]));
            } else if k > kk {
                assert(is_digit(u.take(k)[kk]));
            }
        }
    }
    if f_end == e + 1 || f_end != n {
        proof {
            assert forall|k: int| !point_at(u, k) by {
                if point_at(u, k) {
                    assert(k == kk);
                    if f_end < n {
                        assert(is_digit(u.skip(kk + 1)[fk]));
                    } else {
                        assert(u.len() == kk + 1);
                    }
                }
            }
        }
        return None;
    }
    let frac = fraction_value(s, n, e + 1, n);
    proof {
        assert(s@.subrange(e + 1, n as int) =~= u.skip(kk + 1));
        assert(u.skip(kk + 1).take(fk) =~= u.skip(kk + 1));
        assert(point_at(u, kk));
        if units > UNIT_CAP {
            assert(digits_value(u.take(kk)) * 1_000_000 > UNIT_CAP * 1_000_000 + 999_999);
        }
    }
    if units > UNIT_CAP {
        return None;
    }
    Some(units * 1_000_000 + frac)
}

fn parse_decimal(s: &str) -> (r: Option<Fixed>)
    ensures
        r == decimal(s@),
{
    let n = s.unicode_len();
    let negative = n > 0 && s.get_char(0) == '-';
    let from: usize = if negative {
        1
    } else {
        0
    };
    proof {
        assert(s@.skip(0) =~= s@);
    }
    let ghost u = s@.skip(from as int);
    proof {
        if negative {
            assert(signed_micros(s@) == match unsigned_micros(u) {
                Some(m) => Some(-m),
                None => None::<int>,
            });
        } else {
            assert(u =~= s@);
            assert(signed_micros(s@) == match unsigned_micros(u) {
                Some(m) => Some(m as int),
                None => None::<int>,
            });
        }
    }
    match unsigned_part(s, n, from) {
        None => None,
        Some(v) => {
            let w = v as i128;
            let m = if negative {
                -w
            } else {
                w
            };
            if m < i64::MIN as i128 || m > i64::MAX as i128 {
                None
            } else {
                Some(Fixed { micros: m as i64 })
            }
        },
    }
}

} // verus!
