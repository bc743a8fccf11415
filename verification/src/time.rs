//! Durations of the `time` module: comparison, arithmetic and the text a
//! duration is shown as.
use vstd::prelude::*;

use crate::expand::{digits_value, is_digit, lemma_decimal_digits};
use crate::text::{append_decimal, append_lit, decimal};
use vstd::arithmetic::div_mod::{
    lemma_fundamental_div_mod, lemma_fundamental_div_mod_converse, lemma_mod_pos_bound,
};

verus! {

/// Nanoseconds in a second.
pub const NANOS_PER_SEC: u32 = 1_000_000_000;

/// Ten to the power `n`.
pub open spec fn pow10(n: nat) -> nat
    decreases n,
{
    if n == 0 {
        1
    } else {
        10 * pow10((n - 1) as nat)
    }
}

/// `n` without its trailing decimal zeros, and how many there were; zero
/// has none.
pub open spec fn strip_zeros(n: nat) -> (nat, nat)
    decreases n,
{
    if n == 0 {
        (0, 0)
    } else if n % 10 != 0 {
        (n, 0)
    } else {
        let (m, z) = strip_zeros(n / 10);
        (m, z + 1)
    }
}

/// A positive number is what remains after stripping its trailing zeros
/// times ten to the number of zeros stripped, and what remains does not
/// end with a zero.
pub proof fn law_strip_zeros(n: nat)
    requires
        n > 0,
    ensures
        strip_zeros(n).0 * pow10(strip_zeros(n).1) == n,
        strip_zeros(n).0 % 10 != 0,
        pow10(strip_zeros(n).1) <= n,
    decreases n,
{
    if n % 10 != 0 {
        let p = pow10(0);
        assert(p == 1);
        assert(strip_zeros(n) == (n, 0nat));
        assert(n * p == n) by (nonlinear_arith)
            requires
                p == 1,
        ;
    } else {
        law_strip_zeros(n / 10);
        let (m, z) = strip_zeros(n / 10);
        let p = pow10(z);
        assert(pow10(z + 1) == 10 * p);
        assert(n == 10 * (n / 10));
        assert(m * (10 * p) == 10 * (m * p)) by (nonlinear_arith);
        assert(m >= 1);
        assert(10 * p <= 10 * (m * p)) by (nonlinear_arith)
            requires
                m >= 1,
        ;
        assert(strip_zeros(n) == (m, z + 1));
        assert(m * (10 * p) == n) by (nonlinear_arith)
            requires
                m * p == n / 10,
                n == 10 * (n / 10),
        ;
    }
}

/// Powers of ten grow with the exponent.
proof fn lemma_pow10_monotonic(a: nat, b: nat)
    requires
        a <= b,
    ensures
        pow10(a) <= pow10(b),
    decreases b,
{
    if a < b {
        lemma_pow10_monotonic(a, (b - 1) as nat);
    }
}

/// A power of ten that fits in `u128` has an exponent below 39.
proof fn lemma_pow10_u128(k: nat)
    requires
        pow10(k) <= u128::MAX,
    ensures
        k < 39,
{
    if k >= 39 {
        lemma_pow10_monotonic(39, k);
        assert(pow10(39) == 1_000_000_000_000_000_000_000_000_000_000_000_000_000) by {
            reveal_with_fuel(pow10, 40);
        }
    }
}

/// Removes the trailing decimal zeros of `n` and counts them
/// ([strip_zeros]).
pub fn remove_trailing_zeros(n: u128) -> (r: (u128, usize))
    ensures
        (r.0 as nat, r.1 as nat) == strip_zeros(n as nat),
{
    if n == 0 {
        return (0, 0);
    }
    let mut m = n;
    let mut i: usize = 0;
    assert(pow10(0) == 1);
    while m % 10 == 0
        invariant
            m > 0,
            strip_zeros(n as nat) == (strip_zeros(m as nat).0, (strip_zeros(m as nat).1 + i) as nat),
            pow10(i as nat) * m == n,
        decreases m,
    {
        proof {
            let q = (m / 10) as nat;
            let p = pow10(i as nat);
            assert(m == 10 * q);
            assert(p * m == (10 * p) * q) by (nonlinear_arith)
                requires
                    m == 10 * q,
            ;
            assert(q >= 1);
            assert(10 * p <= (10 * p) * q) by (nonlinear_arith)
                requires
                    q >= 1,
            ;
            assert(pow10((i + 1) as nat) == 10 * p);
            lemma_pow10_u128((i + 1) as nat);
        }
        m = m / 10;
        i += 1;
    }
    (m, i)
}

/// `k` zero digits.
pub open spec fn zeros(k: nat) -> Seq<char> {
    Seq::new(k, |i: int| '0')
}

/// Decimal writing of `n` padded with leading zeros to at least `w`
/// characters.
pub open spec fn padded(n: nat, w: nat) -> Seq<char> {
    if decimal(n).len() < w {
        zeros((w - decimal(n).len()) as nat) + decimal(n)
    } else {
        decimal(n)
    }
}

/// Text of a duration of `secs` seconds and `nanos` nanoseconds: below a
/// second in the largest unit among ns, µs and ms that keeps an integer
/// part, with the exact remainder as decimals; from a second on as hours,
/// minutes and seconds, leaving out zero components, with the milliseconds
/// as decimals of the seconds.
pub open spec fn duration_text(secs: nat, nanos: nat) -> Seq<char> {
    if secs < 1 {
        let us = nanos / 1000;
        let ms = nanos / 1_000_000;
        if nanos == 0 {
            "0s"@
        } else if us == 0 {
            decimal(nanos) + "ns"@
        } else if ms == 0 {
            let r = nanos % 1000;
            if r == 0 {
                decimal(us) + "µs"@
            } else {
                decimal(us) + "."@ + padded(r, 3) + "µs"@
            }
        } else {
            let r = nanos % 1_000_000;
            if r == 0 {
                decimal(ms) + "ms"@
            } else {
                let (m, z) = strip_zeros(r);
                decimal(ms) + "."@ + padded(m, (6 - z) as nat) + "ms"@
            }
        }
    } else {
        let (ms, z) = strip_zeros(nanos / 1_000_000);
        let h = secs / 3600;
        let m = (secs % 3600) / 60;
        let s = secs % 60;
        if ms != 0 {
            let frac = "."@ + padded(ms, (3 - z) as nat) + "s"@;
            if h == 0 && m == 0 {
                decimal(s) + frac
            } else if h == 0 {
                decimal(m) + "m"@ + decimal(s) + frac
            } else if m == 0 {
                decimal(h) + "h"@ + decimal(s) + frac
            } else {
                decimal(h) + "h"@ + decimal(m) + "m"@ + decimal(s) + frac
            }
        } else {
            if h == 0 && m == 0 {
                decimal(s) + "s"@
            } else if h == 0 && s == 0 {
                decimal(m) + "m"@
            } else if h == 0 {
                decimal(m) + "m"@ + decimal(s) + "s"@
            } else if m == 0 && s == 0 {
                decimal(h) + "h"@
            } else if m == 0 {
                decimal(h) + "h"@ + decimal(s) + "s"@
            } else if s == 0 {
                decimal(h) + "h"@ + decimal(m) + "m"@
            } else {
                decimal(h) + "h"@ + decimal(m) + "m"@ + decimal(s) + "s"@
            }
        }
    }
}

/// Appends the decimal writing of `n` padded to `w` characters ([padded]).
fn append_padded(out: &mut String, n: u128, w: usize)
    ensures
        final(out)@ == old(out)@ + padded(n as nat, w as nat),
{
    let mut digits = String::new();
    append_decimal(&mut digits, n);
    let len = digits.as_str().unicode_len();
    let ghost before = out@;
    let mut k = len;
    proof {
        reveal_strlit("0");
    }
    while k < w
        invariant
            len == decimal(n as nat).len(),
            len <= k,
            k <= w || len >= w,
            len >= w ==> k == len,
            out@ == before + zeros((k - len) as nat),
        decreases w - k,
    {
        proof {
            reveal_strlit("0");
        }
        let ghost prev = out@;
        append_lit(out, "0");
        k += 1;
        assert(zeros((k - len) as nat) =~= zeros((k - 1 - len) as nat).push('0'));
        assert(out@ =~= before + zeros((k - len) as nat));
    }
    out.append(digits.as_str());
    proof {
        if len < w {
            assert(k == w);
        } else {
            assert(zeros(0) =~= Seq::<char>::empty());
        }
        assert(out@ =~= before + padded(n as nat, w as nat));
    }
}

/// LuaDuration is a span of time: whole seconds and the nanoseconds of the
/// last second.
#[derive(Clone, Copy, Debug, PartialEq, Eq, Structural)]
pub struct LuaDuration {
    secs: u64,
    nanos: u32,
}

/// Largest number of nanoseconds a duration holds.
pub open spec fn max_nanos() -> nat {
    u64::MAX as nat * 1_000_000_000 + 999_999_999
}

impl View for LuaDuration {
    type V = nat;

    /// Length of the duration in nanoseconds.
    closed spec fn view(&self) -> nat {
        self.secs as nat * 1_000_000_000 + self.nanos as nat
    }
}

impl LuaDuration {
    /// The nanoseconds of the last second are fewer than a second.
    pub closed spec fn wf(&self) -> bool {
        self.nanos < NANOS_PER_SEC
    }

    /// Whole seconds of a well-formed duration.
    pub closed spec fn secs_of(&self) -> nat {
        self.secs as nat
    }

    /// Nanoseconds past the whole seconds of a well-formed duration.
    pub closed spec fn nanos_of(&self) -> nat {
        self.nanos as nat
    }

    /// Splitting into seconds and nanoseconds.
    pub proof fn lemma_parts(&self)
        requires
            self.wf(),
        ensures
            self@ == self.secs_of() * 1_000_000_000 + self.nanos_of(),
            self.nanos_of() < 1_000_000_000,
            self.secs_of() == self@ / 1_000_000_000,
            self.nanos_of() == self@ % 1_000_000_000,
            self@ <= max_nanos(),
    {
    }

    /// Duration of `secs` seconds and `nanos` nanoseconds (fewer than a
    /// second).
    pub fn from_parts(secs: u64, nanos: u32) -> (r: LuaDuration)
        requires
            nanos < NANOS_PER_SEC,
        ensures
            r.wf(),
            r.secs_of() == secs,
            r.nanos_of() == nanos,
            r@ == secs * 1_000_000_000 + nanos,
    {
        LuaDuration { secs, nanos }
    }

    /// Whole seconds of the duration.
    pub fn as_secs(&self) -> (r: u64)
        ensures
            r == self.secs_of(),
    {
        self.secs
    }

    /// Nanoseconds past the whole seconds.
    pub fn subsec_nanos(&self) -> (r: u32)
        ensures
            r == self.nanos_of(),
    {
        self.nanos
    }

    /// One nanosecond.
    pub fn nanosecond() -> (r: LuaDuration)
        ensures
            r.wf(),
            r@ == 1,
    {
        LuaDuration { secs: 0, nanos: 1 }
    }

    /// One microsecond.
    pub fn microsecond() -> (r: LuaDuration)
        ensures
            r.wf(),
            r@ == 1_000,
    {
        LuaDuration { secs: 0, nanos: 1_000 }
    }

    /// One millisecond.
    pub fn millisecond() -> (r: LuaDuration)
        ensures
            r.wf(),
            r@ == 1_000_000,
    {
        LuaDuration { secs: 0, nanos: 1_000_000 }
    }

    /// One second.
    pub fn second() -> (r: LuaDuration)
        ensures
            r.wf(),
            r@ == 1_000_000_000,
    {
        LuaDuration { secs: 1, nanos: 0 }
    }

    /// One minute.
    pub fn minute() -> (r: LuaDuration)
        ensures
            r.wf(),
            r@ == 60_000_000_000,
    {
        LuaDuration { secs: 60, nanos: 0 }
    }

    /// One hour.
    pub fn hour() -> (r: LuaDuration)
        ensures
            r.wf(),
            r@ == 3_600_000_000_000,
    {
        LuaDuration { secs: 3600, nanos: 0 }
    }

    /// Whether both durations are equally long.
    pub fn is_equal(&self, other: &LuaDuration) -> (r: bool)
        requires
            self.wf(),
            other.wf(),
        ensures
            r == (self@ == other@),
    {
        self.secs == other.secs && self.nanos == other.nanos
    }

    /// Whether this duration is shorter than `other`.
    pub fn is_less(&self, other: &LuaDuration) -> (r: bool)
        requires
            self.wf(),
            other.wf(),
        ensures
            r == (self@ < other@),
    {
        self.secs < other.secs || (self.secs == other.secs && self.nanos < other.nanos)
    }

    /// Whether this duration is not longer than `other`.
    pub fn is_less_or_equal(&self, other: &LuaDuration) -> (r: bool)
        requires
            self.wf(),
            other.wf(),
        ensures
            r == (self@ <= other@),
    {
        self.secs < other.secs || (self.secs == other.secs && self.nanos <= other.nanos)
    }

    /// Sum of two durations; the sum must fit in a duration.
    pub fn add(&self, other: &LuaDuration) -> (r: LuaDuration)
        requires
            self.wf(),
            other.wf(),
            self@ + other@ <= max_nanos(),
        ensures
            r.wf(),
            r@ == self@ + other@,
    {
        let nanos = self.nanos + other.nanos;
        if nanos >= NANOS_PER_SEC {
            LuaDuration { secs: self.secs + other.secs + 1, nanos: nanos - NANOS_PER_SEC }
        } else {
            LuaDuration { secs: self.secs + other.secs, nanos }
        }
    }

    /// Difference of two durations; `other` must not be longer.
    pub fn sub(&self, other: &LuaDuration) -> (r: LuaDuration)
        requires
            self.wf(),
            other.wf(),
            other@ <= self@,
        ensures
            r.wf(),
            r@ == self@ - other@,
    {
        if self.nanos >= other.nanos {
            LuaDuration { secs: self.secs - other.secs, nanos: self.nanos - other.nanos }
        } else {
            LuaDuration {
                secs: self.secs - other.secs - 1,
                nanos: self.nanos + NANOS_PER_SEC - other.nanos,
            }
        }
    }

    /// Duration `n` times as long; the product must fit in a duration.
    pub fn mul(&self, n: u32) -> (r: LuaDuration)
        requires
            self.wf(),
            self@ * n <= max_nanos(),
        ensures
            r.wf(),
            r@ == self@ * n,
    {
        assert((self.nanos as u64) * (n as u64) < 1_000_000_000 * 0x1_0000_0000) by (nonlinear_arith)
            requires
                self.nanos < 1_000_000_000,
                n <= u32::MAX,
        ;
        let total_nanos: u64 = self.nanos as u64 * n as u64;
        let extra_secs: u64 = total_nanos / (NANOS_PER_SEC as u64);
        let nanos: u32 = (total_nanos % (NANOS_PER_SEC as u64)) as u32;
        proof {
            let s = self.secs as nat;
            let ns = self.nanos as nat;
            let k = n as nat;
            lemma_fundamental_div_mod(total_nanos as int, 1_000_000_000);
            assert(ns * k == extra_secs * 1_000_000_000 + nanos);
            assert(self@ * k == (s * k + extra_secs) * 1_000_000_000 + nanos) by (nonlinear_arith)
                requires
                    self@ == s * 1_000_000_000 + ns,
                    ns * k == extra_secs * 1_000_000_000 + nanos,
            ;
            assert(s * k + extra_secs <= u64::MAX) by (nonlinear_arith)
                requires
                    self@ * k == (s * k + extra_secs) * 1_000_000_000 + nanos,
                    self@ * k <= max_nanos(),
                    max_nanos() == u64::MAX as nat * 1_000_000_000 + 999_999_999,
            ;
            assert(s * k <= u64::MAX);
        }
        LuaDuration { secs: self.secs * (n as u64) + extra_secs, nanos }
    }

    /// Duration `n` times as long, for a Lua integer `n`; `None` when `n` is
    /// not a `u32`. The product must fit in a duration.
    pub fn mul_integer(&self, n: i64) -> (r: Option<LuaDuration>)
        requires
            self.wf(),
            0 <= n <= u32::MAX ==> self@ * n <= max_nanos(),
        ensures
            r is None <==> !(0 <= n <= u32::MAX),
            r matches Some(d) ==> d.wf() && d@ == self@ * n,
    {
        if n < 0 || n > u32::MAX as i64 {
            None
        } else {
            Some(self.mul(n as u32))
        }
    }

    /// Duration `n` times shorter, rounded down to the nanosecond; `n` must
    /// not be zero.
    pub fn div(&self, n: u32) -> (r: LuaDuration)
        requires
            self.wf(),
            n > 0,
        ensures
            r.wf(),
            r@ == self@ / (n as nat),
    {
        let secs = self.secs / (n as u64);
        let extra_secs = self.secs % (n as u64);
        let nanos = self.nanos / n;
        let extra_nanos = self.nanos % n;
        assert(extra_secs * 1_000_000_000 + extra_nanos < 0x1_0000_0000 * 1_000_000_000 + 0x1_0000_0000)
            by (nonlinear_arith)
            requires
                extra_secs < n,
                extra_nanos < n,
                n <= u32::MAX,
        ;
        let carry: u64 = (extra_secs * (NANOS_PER_SEC as u64) + extra_nanos as u64) / (n as u64);
        proof {
            let k = n as int;
            let s = self.secs as int;
            let ns = self.nanos as int;
            let q1 = secs as int;
            let e1 = extra_secs as int;
            let q2 = nanos as int;
            let e2 = extra_nanos as int;
            let c = carry as int;
            let x = e1 * 1_000_000_000 + e2;
            lemma_fundamental_div_mod(s, k);
            lemma_fundamental_div_mod(ns, k);
            lemma_fundamental_div_mod(x, k);
            let rem = x % k;
            lemma_mod_pos_bound(x, k);
            assert(e2 <= ns);
            assert(self@ == (q1 * 1_000_000_000 + q2 + c) * k + rem) by (nonlinear_arith)
                requires
                    self@ == s * 1_000_000_000 + ns,
                    s == k * q1 + e1,
                    ns == k * q2 + e2,
                    x == k * c + rem,
                    x == e1 * 1_000_000_000 + e2,
            ;
            lemma_fundamental_div_mod_converse(self@ as int, k, q1 * 1_000_000_000 + q2 + c, rem);
            assert(c < 1_000_000_000) by (nonlinear_arith)
                requires
                    x == k * c + rem,
                    0 <= rem,
                    x == e1 * 1_000_000_000 + e2,
                    e1 <= k - 1,
                    e2 < 1_000_000_000,
                    k >= 1,
            ;
            assert(q2 <= 1_000_000_000) by (nonlinear_arith)
                requires
                    ns == k * q2 + e2,
                    ns < 1_000_000_000,
                    k >= 1,
                    e2 >= 0,
            ;
            let v = self@ as int;
            assert(v / k <= v) by (nonlinear_arith)
                requires
                    k >= 1,
                    v >= 0,
            ;
        }
        let total = nanos as u64 + carry;
        LuaDuration::normalized(secs, total)
    }

    /// Duration of `secs` seconds and `nanos` nanoseconds, the whole seconds
    /// of `nanos` carried into the seconds.
    fn normalized(secs: u64, nanos: u64) -> (r: LuaDuration)
        requires
            secs + nanos / 1_000_000_000 <= u64::MAX,
        ensures
            r.wf(),
            r@ == secs * 1_000_000_000 + nanos,
    {
        let extra = nanos / (NANOS_PER_SEC as u64);
        let rest = (nanos % (NANOS_PER_SEC as u64)) as u32;
        LuaDuration { secs: secs + extra, nanos: rest }
    }

    /// Text of the duration ([duration_text]), such as `1.5s`, `2m30s` or
    /// `1.2ms`.
    pub fn to_string(&self) -> (r: String)
        requires
            self.wf(),
        ensures
            r@ == duration_text(self.secs_of(), self.nanos_of()),
    {
        proof {
            reveal_strlit("0s");
            reveal_strlit("ns");
            reveal_strlit("µs");
            reveal_strlit("ms");
            reveal_strlit(".");
            reveal_strlit("s");
            reveal_strlit("m");
            reveal_strlit("h");
        }
        let mut out = String::new();
        let secs = self.secs;
        let nanos = self.nanos as u128;
        if secs < 1 {
            let us = nanos / 1000;
            let ms = nanos / 1_000_000;
            if nanos == 0 {
                append_lit(&mut out, "0s");
            } else if us == 0 {
                append_decimal(&mut out, nanos);
                append_lit(&mut out, "ns");
            } else if ms == 0 {
                let r = nanos % 1000;
                append_decimal(&mut out, us);
                if r != 0 {
                    append_lit(&mut out, ".");
                    append_padded(&mut out, r, 3);
                }
                append_lit(&mut out, "µs");
            } else {
                let r = nanos % 1_000_000;
                append_decimal(&mut out, ms);
                if r != 0 {
                    let (m, z) = remove_trailing_zeros(r);
                    proof {
                        law_strip_zeros(r as nat);
                        if z >= 6 {
                            lemma_pow10_monotonic(6, z as nat);
                            assert(pow10(6) == 1_000_000) by {
                                reveal_with_fuel(pow10, 7);
                            }
                        }
                    }
                    append_lit(&mut out, ".");
                    append_padded(&mut out, m, 6 - z);
                }
                append_lit(&mut out, "ms");
            }
        } else {
            let (ms, z) = remove_trailing_zeros(nanos / 1_000_000);
            proof {
                if ms != 0 {
                    law_strip_zeros((nanos / 1_000_000) as nat);
                    if z >= 3 {
                        lemma_pow10_monotonic(3, z as nat);
                        assert(pow10(3) == 1_000) by {
                            reveal_with_fuel(pow10, 4);
                        }
                    }
                }
            }
            let h = secs / 3600;
            let m = (secs % 3600) / 60;
            let s = secs % 60;
            if h != 0 {
                append_decimal(&mut out, h as u128);
                append_lit(&mut out, "h");
            }
            if m != 0 {
                append_decimal(&mut out, m as u128);
                append_lit(&mut out, "m");
            }
            if ms != 0 {
                append_decimal(&mut out, s as u128);
                append_lit(&mut out, ".");
                append_padded(&mut out, ms, 3 - z);
                append_lit(&mut out, "s");
            } else if s != 0 || (h == 0 && m == 0) {
                append_decimal(&mut out, s as u128);
                append_lit(&mut out, "s");
            }
        }
        out
    }
}

/// Reads a clock text, numbers each followed by its unit `h`, `m` or `s`
/// (the seconds possibly with up to three decimals after a `.`), from
/// `t` on, given the number read so far (`num`), the decimals read so far
/// (`frac`, with `digits` of them, or -1 before any `.`) and the
/// milliseconds of the components already read (`acc`): the total in
/// milliseconds, or `None` when the text is not such a clock text.
pub open spec fn read_clock_from(t: Seq<char>, num: nat, frac: nat, digits: int, acc: nat) -> Option<
    nat,
>
    decreases t.len(),
{
    if t.len() == 0 {
        if num == 0 && digits < 0 {
            Some(acc)
        } else {
            None
        }
    } else {
        let c = t[0];
        let rest = t.drop_first();
        let d = (c as nat - '0' as nat) as nat;
        if is_digit(c) && digits < 0 {
            read_clock_from(rest, 10 * num + d, frac, digits, acc)
        } else if is_digit(c) {
            read_clock_from(rest, num, 10 * frac + d, digits + 1, acc)
        } else if c == '.' && digits < 0 {
            read_clock_from(rest, num, 0, 0, acc)
        } else if c == 'h' && digits < 0 {
            read_clock_from(rest, 0, 0, -1, acc + num * 3_600_000)
        } else if c == 'm' && digits < 0 {
            read_clock_from(rest, 0, 0, -1, acc + num * 60_000)
        } else if c == 's' && digits < 0 {
            read_clock_from(rest, 0, 0, -1, acc + num * 1000)
        } else if c == 's' && digits <= 3 {
            read_clock_from(rest, 0, 0, -1, acc + num * 1000 + frac * pow10((3 - digits) as nat))
        } else {
            None
        }
    }
}

/// Milliseconds that a clock text such as `1h1m1.5s` stands for.
pub open spec fn read_clock(t: Seq<char>) -> Option<nat> {
    read_clock_from(t, 0, 0, -1, 0)
}

/// Reading digits before any `.` extends the number being read.
proof fn lemma_read_int_digits(ds: Seq<char>, rest: Seq<char>, num: nat, acc: nat)
    requires
        forall|i: int| 0 <= i < ds.len() ==> is_digit(#[trigger] ds[i]),
    ensures
        read_clock_from(ds + rest, num, 0, -1, acc) == read_clock_from(
            rest,
            num * pow10(ds.len()) + digits_value(ds),
            0,
            -1,
            acc,
        ),
    decreases ds.len(),
{
    if ds.len() == 0 {
        assert(ds + rest =~= rest);
        assert(num * pow10(0) == num) by (nonlinear_arith)
            requires
                pow10(0) == 1,
        ;
    } else {
        let init = ds.drop_last();
        let l = ds.last();
        assert forall|i: int| 0 <= i < init.len() implies is_digit(#[trigger] init[i]) by {
            assert(init[i] == ds[i]);
        }
        assert(is_digit(ds[ds.len() - 1]));
        let tail = seq![l] + rest;
        assert(ds + rest =~= init + tail);
        lemma_read_int_digits(init, tail, num, acc);
        assert(tail[0] == l);
        assert(tail.drop_first() =~= rest);
        let p = pow10(init.len());
        let d = (l as nat - '0' as nat) as nat;
        assert(pow10(ds.len()) == 10 * p);
        assert(digits_value(ds) == 10 * digits_value(init) + d);
        assert(10 * (num * p + digits_value(init)) + d == num * (10 * p) + (10 * digits_value(init)
            + d)) by (nonlinear_arith);
    }
}

/// Reading digits after a `.` extends the decimals being read.
proof fn lemma_read_frac_digits(
    ds: Seq<char>,
    rest: Seq<char>,
    num: nat,
    frac: nat,
    digits: int,
    acc: nat,
)
    requires
        forall|i: int| 0 <= i < ds.len() ==> is_digit(#[trigger] ds[i]),
        digits >= 0,
    ensures
        read_clock_from(ds + rest, num, frac, digits, acc) == read_clock_from(
            rest,
            num,
            frac * pow10(ds.len()) + digits_value(ds),
            digits + ds.len(),
            acc,
        ),
    decreases ds.len(),
{
    if ds.len() == 0 {
        assert(ds + rest =~= rest);
        assert(frac * pow10(0) == frac) by (nonlinear_arith)
            requires
                pow10(0) == 1,
        ;
    } else {
        let init = ds.drop_last();
        let l = ds.last();
        assert forall|i: int| 0 <= i < init.len() implies is_digit(#[trigger] init[i]) by {
            assert(init[i] == ds[i]);
        }
        assert(is_digit(ds[ds.len() - 1]));
        let tail = seq![l] + rest;
        assert(ds + rest =~= init + tail);
        lemma_read_frac_digits(init, tail, num, frac, digits, acc);
        assert(tail[0] == l);
        assert(tail.drop_first() =~= rest);
        let p = pow10(init.len());
        let d = (l as nat - '0' as nat) as nat;
        assert(pow10(ds.len()) == 10 * p);
        assert(digits_value(ds) == 10 * digits_value(init) + d);
        assert(10 * (frac * p + digits_value(init)) + d == frac * (10 * p) + (10 * digits_value(
            init,
        ) + d)) by (nonlinear_arith);
    }
}

/// Reading a number and its unit `h`, `m` or `s` adds the number in that
/// unit.
proof fn lemma_read_component(n: nat, u: char, rest: Seq<char>, acc: nat)
    requires
        u == 'h' || u == 'm' || u == 's',
    ensures
        read_clock_from(decimal(n) + (seq![u] + rest), 0, 0, -1, acc) == read_clock_from(
            rest,
            0,
            0,
            -1,
            acc + n * (if u == 'h' {
                3_600_000nat
            } else if u == 'm' {
                60_000nat
            } else {
                1000nat
            }),
        ),
{
    lemma_decimal_digits(n);
    lemma_read_int_digits(decimal(n), seq![u] + rest, 0, acc);
    assert(0 * pow10(decimal(n).len()) == 0) by (nonlinear_arith);
    let t = seq![u] + rest;
    assert(t[0] == u);
    assert(t.drop_first() =~= rest);
}

/// `k` zeros read as the number zero.
proof fn lemma_zeros_value(k: nat)
    ensures
        digits_value(zeros(k)) == 0,
        forall|i: int| 0 <= i < zeros(k).len() ==> is_digit(#[trigger] zeros(k)[i]),
    decreases k,
{
    if k > 0 {
        lemma_zeros_value((k - 1) as nat);
        assert(zeros(k).drop_last() =~= zeros((k - 1) as nat));
    }
}

/// Leading zeros do not change the value of digits.
proof fn lemma_leading_zeros(k: nat, ds: Seq<char>)
    ensures
        digits_value(zeros(k) + ds) == digits_value(ds),
    decreases ds.len(),
{
    if ds.len() == 0 {
        lemma_zeros_value(k);
        assert(zeros(k) + ds =~= zeros(k));
    } else {
        lemma_leading_zeros(k, ds.drop_last());
        assert((zeros(k) + ds).drop_last() =~= zeros(k) + ds.drop_last());
        assert((zeros(k) + ds).last() == ds.last());
    }
}

/// A number below ten to the `k` is written with at most `k` digits.
proof fn lemma_decimal_len(n: nat, k: nat)
    requires
        1 <= n < pow10(k),
    ensures
        decimal(n).len() <= k,
    decreases n,
{
    if k == 0 {
        assert(pow10(0) == 1);
    } else if n >= 10 {
        let p = pow10((k - 1) as nat);
        assert(pow10(k) == 10 * p);
        assert(n / 10 < p) by (nonlinear_arith)
            requires
                n < 10 * p,
        ;
        lemma_decimal_len(n / 10, (k - 1) as nat);
    }
}

/// Reading `.`, decimals padded to `w` digits and `s` adds the decimals as
/// milliseconds.
proof fn lemma_read_fraction(n: nat, mstrip: nat, z: nat, acc: nat)
    requires
        1 <= mstrip,
        z <= 3,
        mstrip * pow10(z) < 1000,
    ensures
        read_clock_from(
            decimal(n) + ("."@ + padded(mstrip, (3 - z) as nat) + "s"@),
            0,
            0,
            -1,
            acc,
        ) == Some(acc + n * 1000 + mstrip * pow10(z)),
{
    reveal_strlit(".");
    reveal_strlit("s");
    assert("."@ =~= seq!['.']);
    assert("s"@ =~= seq!['s']);
    let w = (3 - z) as nat;
    let pd = padded(mstrip, w);
    let tail = "."@ + pd + "s"@;
    lemma_decimal_digits(n);
    lemma_decimal_digits(mstrip);
    lemma_read_int_digits(decimal(n), tail, 0, acc);
    assert(0 * pow10(decimal(n).len()) == 0) by (nonlinear_arith);
    assert(tail[0] == '.');
    let after = pd + "s"@;
    assert(tail.drop_first() =~= after);
    assert(pow10(3) == 1000) by {
        reveal_with_fuel(pow10, 4);
    }
    assert(pow10(3) == 10 * pow10(2) && pow10(2) == 10 * pow10(1) && pow10(1) == 10 * pow10(0));
    assert(mstrip < pow10(w)) by {
        if z == 0 {
        } else if z == 1 {
        } else if z == 2 {
        } else {
        }
        assert(mstrip * pow10(z) < pow10(z) * pow10(w)) by (nonlinear_arith)
            requires
                mstrip * pow10(z) < 1000,
                pow10(z) * pow10(w) == 1000,
        ;
        assert(pow10(z) >= 1);
        assert(mstrip < pow10(w)) by (nonlinear_arith)
            requires
                mstrip * pow10(z) < pow10(z) * pow10(w),
                pow10(z) >= 1,
        ;
    }
    lemma_decimal_len(mstrip, w);
    let dl = decimal(mstrip).len();
    if dl < w {
        lemma_zeros_value((w - dl) as nat);
        lemma_leading_zeros((w - dl) as nat, decimal(mstrip));
        assert forall|i: int| 0 <= i < pd.len() implies is_digit(#[trigger] pd[i]) by {
            if i < w - dl {
                assert(pd[i] == zeros((w - dl) as nat)[i]);
            } else {
                assert(pd[i] == decimal(mstrip)[i - (w - dl)]);
            }
        }
    }
    assert(pd.len() == w);
    assert(digits_value(pd) == mstrip);
    let sx = "s"@;
    lemma_read_frac_digits(pd, sx, n, 0, 0, acc);
    assert(0 * pow10(pd.len()) + mstrip == mstrip) by (nonlinear_arith);
    assert(sx[0] == 's');
    assert(sx.drop_first() =~= Seq::<char>::empty());
    assert((3 - w) as nat == z);
    assert(decimal(n) + ("."@ + padded(mstrip, (3 - z) as nat) + "s"@) == decimal(n) + tail);
    assert(read_clock_from(decimal(n) + tail, 0, 0, -1, acc) == read_clock_from(tail, n, 0, -1, acc));
    assert(!is_digit('.'));
    assert(read_clock_from(tail, n, 0, -1, acc) == read_clock_from(after, n, 0, 0, acc));
    assert(after == pd + sx);
    assert(read_clock_from(after, n, 0, 0, acc) == read_clock_from(sx, n, mstrip, w as int, acc));
    assert(!is_digit('s'));
    assert(read_clock_from(sx, n, mstrip, w as int, acc) == read_clock_from(
        Seq::<char>::empty(),
        0,
        0,
        -1,
        acc + n * 1000 + mstrip * pow10(z),
    ));
}

/// The text of a duration of at least one second reads back as the
/// duration: its hours, minutes and seconds, each followed by its unit, add
/// up to the duration's whole seconds, and the decimals of the seconds give
/// its milliseconds. So every non-zero component appears with its unit.
#[verifier::spinoff_prover]
#[verifier::rlimit(50)]
pub proof fn law_duration_text_reads_back(secs: nat, nanos: nat)
    requires
        secs >= 1,
        nanos < 1_000_000_000,
    ensures
        read_clock(duration_text(secs, nanos)) == Some(secs * 1000 + nanos / 1_000_000),
{
    reveal_strlit("h");
    reveal_strlit("m");
    reveal_strlit("s");
    let hx = "h"@;
    let mx = "m"@;
    let sx = "s"@;
    assert(hx =~= seq!['h']);
    assert(mx =~= seq!['m']);
    assert(sx =~= seq!['s']);
    let e = Seq::<char>::empty();
    let raw = nanos / 1_000_000;
    let (ms, z) = strip_zeros(raw);
    let h = secs / 3600;
    let m = (secs % 3600) / 60;
    let sec = secs % 60;
    assert(secs == 3600 * h + 60 * m + sec) by {
        lemma_fundamental_div_mod(secs as int, 3600);
        lemma_fundamental_div_mod((secs % 3600) as int, 60);
        assert(secs % 60 == (secs % 3600) % 60) by {
            vstd::arithmetic::div_mod::lemma_mod_mod(secs as int, 60, 60);
        }
    }
    let total = secs * 1000 + raw;
    let t = duration_text(secs, nanos);
    if raw != 0 {
        law_strip_zeros(raw);
        assert(ms != 0) by {
            if ms == 0 {
                assert(0 * pow10(z) == 0) by (nonlinear_arith);
            }
        }
        assert(pow10(3) == 1000) by {
            reveal_with_fuel(pow10, 4);
        }
        assert(z <= 3) by {
            if z > 3 {
                lemma_pow10_monotonic(3, z);
            }
        }
        let frac = "."@ + padded(ms, (3 - z) as nat) + "s"@;
        if h == 0 && m == 0 {
            lemma_read_fraction(sec, ms, z, 0);
            assert(t == decimal(sec) + frac);
        } else if h == 0 {
            let rest = decimal(sec) + frac;
            assert(t =~= decimal(m) + (seq!['m'] + rest));
            lemma_read_component(m, 'm', rest, 0);
            lemma_read_fraction(sec, ms, z, m * 60_000);
        } else if m == 0 {
            let rest = decimal(sec) + frac;
            assert(t =~= decimal(h) + (seq!['h'] + rest));
            lemma_read_component(h, 'h', rest, 0);
            lemma_read_fraction(sec, ms, z, h * 3_600_000);
        } else {
            let rest2 = decimal(sec) + frac;
            let rest1 = decimal(m) + (seq!['m'] + rest2);
            assert(t =~= decimal(h) + (seq!['h'] + rest1));
            lemma_read_component(h, 'h', rest1, 0);
            lemma_read_component(m, 'm', rest2, h * 3_600_000);
            lemma_read_fraction(sec, ms, z, h * 3_600_000 + m * 60_000);
        }
    } else {
        assert(strip_zeros(0) == (0nat, 0nat));
        if h == 0 && m == 0 {
            assert(t =~= decimal(sec) + (seq!['s'] + e));
            lemma_read_component(sec, 's', e, 0);
        } else if h == 0 && sec == 0 {
            assert(t =~= decimal(m) + (seq!['m'] + e));
            lemma_read_component(m, 'm', e, 0);
        } else if h == 0 {
            let rest = decimal(sec) + (seq!['s'] + e);
            assert(t =~= decimal(m) + (seq!['m'] + rest));
            lemma_read_component(m, 'm', rest, 0);
            lemma_read_component(sec, 's', e, m * 60_000);
        } else if m == 0 && sec == 0 {
            assert(t =~= decimal(h) + (seq!['h'] + e));
            lemma_read_component(h, 'h', e, 0);
        } else if m == 0 {
            let rest = decimal(sec) + (seq!['s'] + e);
            assert(t =~= decimal(h) + (seq!['h'] + rest));
            lemma_read_component(h, 'h', rest, 0);
            lemma_read_component(sec, 's', e, h * 3_600_000);
        } else if sec == 0 {
            let rest = decimal(m) + (seq!['m'] + e);
            assert(t =~= decimal(h) + (seq!['h'] + rest));
            lemma_read_component(h, 'h', rest, 0);
            lemma_read_component(m, 'm', e, h * 3_600_000);
        } else {
            let rest2 = decimal(sec) + (seq!['s'] + e);
            let rest1 = decimal(m) + (seq!['m'] + rest2);
            assert(t =~= decimal(h) + (seq!['h'] + rest1));
            lemma_read_component(h, 'h', rest1, 0);
            lemma_read_component(m, 'm', rest2, h * 3_600_000);
            lemma_read_component(sec, 's', e, h * 3_600_000 + m * 60_000);
        }
    }
}

/// Power of ten of the unit that starts with `u`, in nanoseconds: `ns`,
/// `µs`, `ms` and `s`.
pub open spec fn unit_exponent(u: char) -> Option<nat> {
    if u == 'n' {
        Some(0)
    } else if u == 'µ' {
        Some(3)
    } else if u == 'm' {
        Some(6)
    } else if u == 's' {
        Some(9)
    } else {
        None
    }
}

/// Reads a short duration text, a number with optional decimals followed by
/// one of the units `ns`, `µs`, `ms` or `s`, from `t` on, given the number
/// and decimals read so far: the duration in nanoseconds, or `None` when the
/// text is not such a duration or has more decimals than nanoseconds.
pub open spec fn read_short_from(t: Seq<char>, num: nat, frac: nat, digits: int) -> Option<nat>
    decreases t.len(),
{
    if t.len() == 0 {
        None
    } else {
        let c = t[0];
        let rest = t.drop_first();
        let d = (c as nat - '0' as nat) as nat;
        if is_digit(c) && digits < 0 {
            read_short_from(rest, 10 * num + d, frac, digits)
        } else if is_digit(c) {
            read_short_from(rest, num, 10 * frac + d, digits + 1)
        } else if c == '.' && digits < 0 {
            read_short_from(rest, num, 0, 0)
        } else {
            match unit_exponent(c) {
                Some(e) => if (if c == 's' {
                    rest.len() == 0
                } else {
                    rest == seq!['s']
                }) && digits <= e {
                    Some(
                        num * pow10(e) + if digits < 0 {
                            0
                        } else {
                            frac * pow10((e - digits) as nat)
                        },
                    )
                } else {
                    None
                },
                None => None,
            }
        }
    }
}

/// Nanoseconds that a short duration text such as `1.5µs` stands for.
pub open spec fn read_short(t: Seq<char>) -> Option<nat> {
    read_short_from(t, 0, 0, -1)
}

/// Reading digits before any `.` extends the number being read.
proof fn lemma_short_int_digits(ds: Seq<char>, rest: Seq<char>, num: nat)
    requires
        forall|i: int| 0 <= i < ds.len() ==> is_digit(#[trigger] ds[i]),
    ensures
        read_short_from(ds + rest, num, 0, -1) == read_short_from(
            rest,
            num * pow10(ds.len()) + digits_value(ds),
            0,
            -1,
        ),
    decreases ds.len(),
{
    if ds.len() == 0 {
        assert(ds + rest =~= rest);
        assert(num * pow10(0) == num) by (nonlinear_arith)
            requires
                pow10(0) == 1,
        ;
    } else {
        let init = ds.drop_last();
        let l = ds.last();
        assert forall|i: int| 0 <= i < init.len() implies is_digit(#[trigger] init[i]) by {
            assert(init[i] == ds[i]);
        }
        assert(is_digit(ds[ds.len() - 1]));
        let tail = seq![l] + rest;
        assert(ds + rest =~= init + tail);
        lemma_short_int_digits(init, tail, num);
        assert(tail[0] == l);
        assert(tail.drop_first() =~= rest);
        let p = pow10(init.len());
        let d = (l as nat - '0' as nat) as nat;
        assert(pow10(ds.len()) == 10 * p);
        assert(digits_value(ds) == 10 * digits_value(init) + d);
        assert(10 * (num * p + digits_value(init)) + d == num * (10 * p) + (10 * digits_value(init)
            + d)) by (nonlinear_arith);
    }
}

/// Reading digits after a `.` extends the decimals being read.
proof fn lemma_short_frac_digits(ds: Seq<char>, rest: Seq<char>, num: nat, frac: nat, digits: int)
    requires
        forall|i: int| 0 <= i < ds.len() ==> is_digit(#[trigger] ds[i]),
        digits >= 0,
    ensures
        read_short_from(ds + rest, num, frac, digits) == read_short_from(
            rest,
            num,
            frac * pow10(ds.len()) + digits_value(ds),
            digits + ds.len(),
        ),
    decreases ds.len(),
{
    if ds.len() == 0 {
        assert(ds + rest =~= rest);
        assert(frac * pow10(0) == frac) by (nonlinear_arith)
            requires
                pow10(0) == 1,
        ;
    } else {
        let init = ds.drop_last();
        let l = ds.last();
        assert forall|i: int| 0 <= i < init.len() implies is_digit(#[trigger] init[i]) by {
            assert(init[i] == ds[i]);
        }
        assert(is_digit(ds[ds.len() - 1]));
        let tail = seq![l] + rest;
        assert(ds + rest =~= init + tail);
        lemma_short_frac_digits(init, tail, num, frac, digits);
        assert(tail[0] == l);
        assert(tail.drop_first() =~= rest);
        let p = pow10(init.len());
        let d = (l as nat - '0' as nat) as nat;
        assert(pow10(ds.len()) == 10 * p);
        assert(digits_value(ds) == 10 * digits_value(init) + d);
        assert(10 * (frac * p + digits_value(init)) + d == frac * (10 * p) + (10 * digits_value(
            init,
        ) + d)) by (nonlinear_arith);
    }
}

/// A number followed by a two-character unit reads as the number in that
/// unit.
proof fn lemma_short_whole(n: nat, unit: Seq<char>, e: nat)
    requires
        unit.len() == 2,
        unit[1] == 's',
        unit_exponent(unit[0]) == Some(e),
        unit[0] != 's',
    ensures
        read_short(decimal(n) + unit) == Some(n * pow10(e)),
{
    lemma_decimal_digits(n);
    lemma_short_int_digits(decimal(n), unit, 0);
    assert(0 * pow10(decimal(n).len()) == 0) by (nonlinear_arith);
    assert(!is_digit(unit[0]) && unit[0] != '.');
    assert(unit.drop_first() =~= seq!['s']);
}

/// A number, `.`, decimals padded to `w` digits and a two-character unit
/// read as the number plus the decimals in that unit.
proof fn lemma_short_fraction(n: nat, f: nat, w: nat, unit: Seq<char>, e: nat)
    requires
        unit.len() == 2,
        unit[1] == 's',
        unit_exponent(unit[0]) == Some(e),
        unit[0] != 's',
        w <= e,
        1 <= f < pow10(w),
    ensures
        read_short(decimal(n) + ("."@ + padded(f, w) + unit)) == Some(
            n * pow10(e) + f * pow10((e - w) as nat),
        ),
{
    reveal_strlit(".");
    assert("."@ =~= seq!['.']);
    let pd = padded(f, w);
    let tail = "."@ + pd + unit;
    lemma_decimal_digits(n);
    lemma_decimal_digits(f);
    lemma_short_int_digits(decimal(n), tail, 0);
    assert(0 * pow10(decimal(n).len()) + digits_value(decimal(n)) == n) by (nonlinear_arith)
        requires
            digits_value(decimal(n)) == n,
    ;
    assert(tail[0] == '.');
    let after = pd + unit;
    assert(tail.drop_first() =~= after);
    assert(!is_digit('.'));
    lemma_decimal_len(f, w);
    let dl = decimal(f).len();
    if dl < w {
        lemma_zeros_value((w - dl) as nat);
        lemma_leading_zeros((w - dl) as nat, decimal(f));
        assert forall|i: int| 0 <= i < pd.len() implies is_digit(#[trigger] pd[i]) by {
            if i < w - dl {
                assert(pd[i] == zeros((w - dl) as nat)[i]);
            } else {
                assert(pd[i] == decimal(f)[i - (w - dl)]);
            }
        }
    }
    assert(pd.len() == w);
    assert(digits_value(pd) == f);
    lemma_short_frac_digits(pd, unit, n, 0, 0);
    assert(0 * pow10(pd.len()) + f == f) by (nonlinear_arith);
    assert(!is_digit(unit[0]) && unit[0] != '.');
    assert(unit.drop_first() =~= seq!['s']);
    assert(read_short_from(decimal(n) + tail, 0, 0, -1) == read_short_from(tail, n, 0, -1));
    assert(read_short_from(tail, n, 0, -1) == read_short_from(after, n, 0, 0));
    assert(read_short_from(after, n, 0, 0) == read_short_from(unit, n, f, w as int));
    assert(decimal(n) + ("."@ + padded(f, w) + unit) == decimal(n) + tail);
}

/// The text of a duration below one second reads back as its nanoseconds:
/// in nanoseconds, microseconds or milliseconds, the decimals carrying the
/// rest exactly.
pub proof fn law_short_duration_text_reads_back(nanos: nat)
    requires
        nanos < 1_000_000_000,
    ensures
        read_short(duration_text(0, nanos)) == Some(nanos),
{
    reveal_strlit("0s");
    reveal_strlit("ns");
    reveal_strlit("µs");
    reveal_strlit("ms");
    let t = duration_text(0, nanos);
    let us = nanos / 1000;
    let ms = nanos / 1_000_000;
    assert(pow10(0) == 1);
    assert(pow10(3) == 1000) by {
        reveal_with_fuel(pow10, 4);
    }
    assert(pow10(6) == 1_000_000) by {
        reveal_with_fuel(pow10, 7);
    }
    if nanos == 0 {
        let z = "0s"@;
        assert(z[0] == '0' && z[1] == 's' && z.len() == 2);
        assert(z.drop_first() =~= seq!['s']);
        assert(z.drop_first().drop_first() =~= Seq::<char>::empty());
        assert(read_short_from(seq!['s'], 0, 0, -1) == Some(0 * pow10(9))) by {
            assert(seq!['s'].drop_first() =~= Seq::<char>::empty());
        }
        assert(0 * pow10(9) == 0) by (nonlinear_arith);
        assert(t == z);
        assert(read_short_from(z, 0, 0, -1) == read_short_from(z.drop_first(), 0, 0, -1));
        assert(read_short(t) == Some(nanos));
    } else if us == 0 {
        lemma_short_whole(nanos, "ns"@, 0);
        assert(nanos * 1 == nanos);
        assert(t == decimal(nanos) + "ns"@);
        assert(read_short(t) == Some(nanos));
    } else if ms == 0 {
        let r = nanos % 1000;
        assert(nanos == us * 1000 + r);
        if r == 0 {
            lemma_short_whole(us, "µs"@, 3);
            assert(t == decimal(us) + "µs"@);
            assert(us * pow10(3) == nanos);
        } else {
            lemma_short_fraction(us, r, 3, "µs"@, 3);
            assert(pow10(0) == 1);
            assert(r * pow10(0) == r);
            assert(us * pow10(3) + r * pow10(0) == nanos);
            assert(t == decimal(us) + ("."@ + padded(r, 3) + "µs"@));
        }
        assert(read_short(t) == Some(nanos));
    } else {
        let r = nanos % 1_000_000;
        assert(nanos == ms * 1_000_000 + r);
        if r == 0 {
            lemma_short_whole(ms, "ms"@, 6);
            assert(t == decimal(ms) + "ms"@);
            assert(ms * pow10(6) == nanos);
        } else {
            let (m, z) = strip_zeros(r);
            law_strip_zeros(r);
            assert(z <= 6) by {
                if z > 6 {
                    lemma_pow10_monotonic(6, z);
                }
            }
            assert(m >= 1) by {
                if m == 0 {
                    assert(0 * pow10(z) == 0) by (nonlinear_arith);
                }
            }
            let w = (6 - z) as nat;
            assert(pow10(z) * pow10(w) == pow10(6)) by {
                lemma_pow10_add(z, w);
            }
            assert(m < pow10(w)) by (nonlinear_arith)
                requires
                    m * pow10(z) == r,
                    r < 1_000_000,
                    pow10(z) * pow10(w) == 1_000_000,
                    pow10(z) >= 1,
            ;
            assert(pow10(z) >= 1) by {
                lemma_pow10_monotonic(0, z);
            }
            lemma_short_fraction(ms, m, w, "ms"@, 6);
            assert((6 - w) as nat == z);
            assert(t == decimal(ms) + ("."@ + padded(m, w) + "ms"@));
            assert(ms * pow10(6) + m * pow10(z) == nanos);
        }
        assert(read_short(t) == Some(nanos));
    }
}

/// Ten to the `a + b` is ten to the `a` times ten to the `b`.
proof fn lemma_pow10_add(a: nat, b: nat)
    ensures
        pow10(a) * pow10(b) == pow10(a + b),
    decreases a,
{
    if a == 0 {
        assert(pow10(0) == 1);
    } else {
        lemma_pow10_add((a - 1) as nat, b);
        assert(pow10(a) == 10 * pow10((a - 1) as nat));
        assert(pow10(a + b) == 10 * pow10((a - 1 + b) as nat));
        assert(10 * pow10((a - 1) as nat) * pow10(b) == 10 * (pow10((a - 1) as nat) * pow10(b)))
            by (nonlinear_arith);
    }
}

} // verus!
