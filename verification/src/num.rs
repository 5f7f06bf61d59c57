//! The runtime number model: a fixed-point decimal.
//!
//! A `Num` holds an `i64` count of millionths. Addition, subtraction,
//! multiplication and negation saturate at the representable range;
//! multiplication and division truncate toward zero at the scale's
//! granularity. Numeric literals beyond the range saturate the same way.

use vstd::prelude::*;
use vstd::arithmetic::div_mod::lemma_div_nonincreasing;

verus! {

/// How many mantissa units make one whole: `Num { mantissa: SCALE }` is `1`.
pub const SCALE: i64 = 1_000_000;

/// The largest integer-part accumulator the literal scanner keeps; one more
/// than the largest integer part a mantissa can carry, so that any literal
/// reaching it saturates to `i64::MAX`.
pub const IP_CAP: u64 = 9_223_372_036_855;

#[derive(Clone, Copy, PartialEq, Eq, Structural, Debug)]
pub struct Num {
    pub mantissa: i64,
}

pub open spec fn clamp(x: int) -> int {
    if x > i64::MAX {
        i64::MAX as int
    } else if x < i64::MIN {
        i64::MIN as int
    } else {
        x
    }
}

pub open spec fn abs_int(x: int) -> int {
    if x < 0 {
        -x
    } else {
        x
    }
}

/// Division truncating toward zero, the rounding the runtime uses.
pub open spec fn tdiv(a: int, b: int) -> int
    recommends
        b != 0,
{
    let q = abs_int(a) / abs_int(b);
    if (a < 0) != (b < 0) {
        -q
    } else {
        q
    }
}

pub open spec fn num_add(a: int, b: int) -> int {
    clamp(a + b)
}

pub open spec fn num_sub(a: int, b: int) -> int {
    clamp(a - b)
}

pub open spec fn num_neg(a: int) -> int {
    clamp(-a)
}

pub open spec fn num_mul(a: int, b: int) -> int {
    clamp(tdiv(a * b, SCALE as int))
}

pub open spec fn num_div(a: int, b: int) -> int
    recommends
        b != 0,
{
    clamp(tdiv(a * (SCALE as int), b))
}

fn clamp_i128(x: i128) -> (r: i64)
    ensures
        r as int == clamp(x as int),
{
    if x > i64::MAX as i128 {
        i64::MAX
    } else if x < i64::MIN as i128 {
        i64::MIN
    } else {
        x as i64
    }
}

/// Truncating division on machine integers, via unsigned magnitudes.
fn trunc_div_i128(a: i128, b: i128) -> (r: i128)
    requires
        b != 0,
        i128::MIN < a,
        i128::MIN < b,
    ensures
        r as int == tdiv(a as int, b as int),
{
    let neg = (a < 0) != (b < 0);
    let am: u128 = if a < 0 {
        (-a) as u128
    } else {
        a as u128
    };
    let bm: u128 = if b < 0 {
        (-b) as u128
    } else {
        b as u128
    };
    let q: u128 = am / bm;
    proof {
        lemma_div_nonincreasing(am as int, bm as int);
    }
    if neg {
        -(q as i128)
    } else {
        q as i128
    }
}

impl Num {
    pub open spec fn as_int(self) -> int {
        self.mantissa as int
    }

    pub fn add(self, other: Num) -> (r: Num)
        ensures
            r.mantissa as int == num_add(self.as_int(), other.as_int()),
    {
        let s: i128 = self.mantissa as i128 + other.mantissa as i128;
        Num { mantissa: clamp_i128(s) }
    }

    pub fn sub(self, other: Num) -> (r: Num)
        ensures
            r.mantissa as int == num_sub(self.as_int(), other.as_int()),
    {
        let s: i128 = self.mantissa as i128 - other.mantissa as i128;
        Num { mantissa: clamp_i128(s) }
    }

    pub fn neg(self) -> (r: Num)
        ensures
            r.mantissa as int == num_neg(self.as_int()),
    {
        let s: i128 = -(self.mantissa as i128);
        Num { mantissa: clamp_i128(s) }
    }

    pub fn mul(self, other: Num) -> (r: Num)
        ensures
            r.mantissa as int == num_mul(self.as_int(), other.as_int()),
    {
        let a: i128 = self.mantissa as i128;
        let b: i128 = other.mantissa as i128;
        proof {
            assert(i128::MIN < a * b <= i128::MAX) by (nonlinear_arith)
                requires
                    -0x8000_0000_0000_0000 <= a <= 0x7fff_ffff_ffff_ffff,
                    -0x8000_0000_0000_0000 <= b <= 0x7fff_ffff_ffff_ffff,
            ;
        }
        let p: i128 = a * b;
        let q: i128 = trunc_div_i128(p, SCALE as i128);
        Num { mantissa: clamp_i128(q) }
    }

    pub fn div(self, other: Num) -> (r: Num)
        requires
            other.mantissa != 0,
        ensures
            r.mantissa as int == num_div(self.as_int(), other.as_int()),
    {
        let a: i128 = self.mantissa as i128;
        proof {
            assert(i128::MIN < a * (SCALE as i128) <= i128::MAX) by (nonlinear_arith)
                requires
                    -0x8000_0000_0000_0000 <= a <= 0x7fff_ffff_ffff_ffff,
            ;
        }
        let p: i128 = a * (SCALE as i128);
        let q: i128 = trunc_div_i128(p, other.mantissa as i128);
        Num { mantissa: clamp_i128(q) }
    }

    pub fn lt(self, other: Num) -> (r: bool)
        ensures
            r == (self.as_int() < other.as_int()),
    {
        self.mantissa < other.mantissa
    }

    pub fn gt(self, other: Num) -> (r: bool)
        ensures
            r == (self.as_int() > other.as_int()),
    {
        self.mantissa > other.mantissa
    }

    pub fn le(self, other: Num) -> (r: bool)
        ensures
            r == (self.as_int() <= other.as_int()),
    {
        self.mantissa <= other.mantissa
    }

    pub fn ge(self, other: Num) -> (r: bool)
        ensures
            r == (self.as_int() >= other.as_int()),
    {
        self.mantissa >= other.mantissa
    }

    pub fn eq_num(self, other: Num) -> (r: bool)
        ensures
            r == (self.as_int() == other.as_int()),
    {
        self.mantissa == other.mantissa
    }

    pub fn is_zero(self) -> (r: bool)
        ensures
            r == (self.as_int() == 0),
    {
        self.mantissa == 0
    }

    pub fn is_whole(self) -> (r: bool)
        ensures
            r == (abs_int(self.as_int()) % (SCALE as int) == 0),
    {
        abs_u64(self.mantissa) % (SCALE as u64) == 0
    }
}

fn abs_u64(m: i64) -> (r: u64)
    ensures
        r as int == abs_int(m as int),
{
    if m < 0 {
        (-(m as i128)) as u64
    } else {
        m as u64
    }
}

pub open spec fn digit_char(d: nat) -> char {
    if d == 0 {
        '0'
    } else if d == 1 {
        '1'
    } else if d == 2 {
        '2'
    } else if d == 3 {
        '3'
    } else if d == 4 {
        '4'
    } else if d == 5 {
        '5'
    } else if d == 6 {
        '6'
    } else if d == 7 {
        '7'
    } else if d == 8 {
        '8'
    } else {
        '9'
    }
}

fn digit_char_exec(d: u64) -> (r: char)
    requires
        d < 10,
    ensures
        r == digit_char(d as nat),
{
    match d {
        0 => '0',
        1 => '1',
        2 => '2',
        3 => '3',
        4 => '4',
        5 => '5',
        6 => '6',
        7 => '7',
        8 => '8',
        _ => '9',
    }
}

/// The decimal digits of `n`, most significant first.
pub open spec fn digits_rec(n: nat) -> Seq<char>
    decreases n,
{
    if n < 10 {
        seq![digit_char(n)]
    } else {
        digits_rec(n / 10).push(digit_char(n % 10))
    }
}

/// Exactly `k` decimal digits of `n`, zero-padded on the left.
pub open spec fn pad_digits(n: nat, k: nat) -> Seq<char>
    decreases k,
{
    if k == 0 {
        Seq::empty()
    } else {
        pad_digits(n / 10, (k - 1) as nat).push(digit_char(n % 10))
    }
}

pub open spec fn strip_zeros(s: Seq<char>) -> Seq<char>
    decreases s.len(),
{
    if s.len() > 0 && s[s.len() - 1] == '0' {
        strip_zeros(s.drop_last())
    } else {
        s
    }
}

/// The display form of a mantissa: no decimal point for whole numbers,
/// otherwise the fraction with its trailing zeros stripped.
pub open spec fn render_num(m: int) -> Seq<char> {
    let a = abs_int(m);
    let sign: Seq<char> = if m < 0 {
        seq!['-']
    } else {
        Seq::empty()
    };
    let ip = (a / (SCALE as int)) as nat;
    let fp = (a % (SCALE as int)) as nat;
    if fp == 0 {
        sign + digits_rec(ip)
    } else {
        sign + digits_rec(ip) + seq!['.'] + strip_zeros(pad_digits(fp, 6))
    }
}

fn push_digits(v: &mut Vec<char>, n: u64)
    ensures
        final(v)@ == old(v)@ + digits_rec(n as nat),
    decreases n,
{
    if n < 10 {
        v.push(digit_char_exec(n));
        assert(v@ =~= old(v)@ + digits_rec(n as nat));
    } else {
        push_digits(v, n / 10);
        v.push(digit_char_exec(n % 10));
        assert(v@ =~= old(v)@ + digits_rec(n as nat));
    }
}

fn push_pad_digits(v: &mut Vec<char>, n: u64, k: u64)
    ensures
        final(v)@ == old(v)@ + pad_digits(n as nat, k as nat),
    decreases k,
{
    if k == 0 {
        assert(v@ =~= old(v)@ + pad_digits(n as nat, 0));
    } else {
        push_pad_digits(v, n / 10, k - 1);
        v.push(digit_char_exec(n % 10));
        assert(v@ =~= old(v)@ + pad_digits(n as nat, k as nat));
    }
}

fn strip_trailing_zeros(v: &mut Vec<char>)
    ensures
        final(v)@ == strip_zeros(old(v)@),
    decreases old(v)@.len(),
{
    if v.len() > 0 && v[v.len() - 1] == '0' {
        v.pop();
        assert(v@ =~= old(v)@.drop_last());
        strip_trailing_zeros(v);
    }
}

impl Num {
    /// The characters of this number's display form.
    pub fn to_chars(self) -> (r: Vec<char>)
        ensures
            r@ == render_num(self.as_int()),
    {
        let ghost sign: Seq<char> = if self.as_int() < 0 { seq!['-'] } else { Seq::<char>::empty() };
        let mut v: Vec<char> = Vec::new();
        if self.mantissa < 0 {
            v.push('-');
        }
        assert(v@ =~= sign);
        let a = abs_u64(self.mantissa);
        let ip = a / (SCALE as u64);
        let fp = a % (SCALE as u64);
        push_digits(&mut v, ip);
        let ghost head: Seq<char> = sign + digits_rec(ip as nat);
        assert(v@ == head);
        if fp != 0 {
            v.push('.');
            let mut f: Vec<char> = Vec::new();
            push_pad_digits(&mut f, fp, 6);
            strip_trailing_zeros(&mut f);
            let mut i: usize = 0;
            while i < f.len()
                invariant
                    i <= f@.len(),
                    f@ == strip_zeros(pad_digits(fp as nat, 6)),
                    v@ == head + seq!['.'] + f@.subrange(0, i as int),
                decreases f@.len() - i,
            {
                let c = f[i];
                v.push(c);
                i = i + 1;
                assert(v@ =~= head + seq!['.'] + f@.subrange(0, i as int));
            }
            assert(f@.subrange(0, f@.len() as int) =~= f@);
            assert(v@ =~= render_num(self.as_int()));
        } else {
            assert(v@ =~= render_num(self.as_int()));
        }
        v
    }
}


pub open spec fn is_digit_char(c: char) -> bool {
    '0' <= c && c <= '9'
}

pub open spec fn digit_val(c: char) -> int {
    c as int - '0' as int
}

/// Saturating accumulation of the integer part of a literal: once the
/// accumulator reaches `IP_CAP` it stays there, and the literal saturates.
pub open spec fn sat_step(acc: int, d: int) -> int {
    if acc * 10 + d >= IP_CAP as int {
        IP_CAP as int
    } else {
        acc * 10 + d
    }
}

/// Scans decimal digits from `i`, returning the saturated accumulator and
/// the index of the first non-digit.
pub open spec fn sp_int_part(s: Seq<char>, i: int, acc: int) -> (int, int)
    decreases s.len() - i,
{
    if 0 <= i < s.len() && is_digit_char(s[i]) {
        sp_int_part(s, i + 1, sat_step(acc, digit_val(s[i])))
    } else {
        (acc, i)
    }
}

/// Scans the fractional digits, keeping the first six; a second decimal
/// point makes the literal malformed (`None`).
pub open spec fn sp_frac_part(s: Seq<char>, i: int, acc: int, k: int) -> Option<(int, int)>
    decreases s.len() - i,
{
    if !(0 <= i < s.len()) {
        Some((acc, k))
    } else if s[i] == '.' {
        None
    } else if is_digit_char(s[i]) {
        if k < 6 {
            sp_frac_part(s, i + 1, acc * 10 + digit_val(s[i]), k + 1)
        } else {
            sp_frac_part(s, i + 1, acc, k)
        }
    } else {
        Some((acc, k))
    }
}

pub open spec fn pow10(k: int) -> int {
    if k <= 0 {
        1
    } else if k == 1 {
        10
    } else if k == 2 {
        100
    } else if k == 3 {
        1000
    } else if k == 4 {
        10000
    } else if k == 5 {
        100000
    } else {
        1000000
    }
}

/// The mantissa a scanned digit-and-dot run denotes. A malformed run (two
/// decimal points) denotes zero; this permissive fallback is deliberate.
pub open spec fn sp_num_value(s: Seq<char>) -> int {
    let (ip, i) = sp_int_part(s, 0, 0);
    if i >= s.len() {
        clamp(ip * (SCALE as int))
    } else if s[i] == '.' {
        match sp_frac_part(s, i + 1, 0, 0) {
            Some((f, k)) => clamp(ip * (SCALE as int) + f * pow10(6 - k)),
            None => 0,
        }
    } else {
        clamp(ip * (SCALE as int))
    }
}

fn ip_scan(s: &Vec<char>, i: usize, acc: u64) -> (r: (u64, usize))
    requires
        i <= s@.len(),
        acc <= IP_CAP,
    ensures
        (r.0 as int, r.1 as int) == sp_int_part(s@, i as int, acc as int),
        r.0 <= IP_CAP,
        i <= r.1 <= s@.len(),
    decreases s@.len() - i,
{
    if i < s.len() && is_digit_exec(s[i]) {
        let d: u64 = digit_val_exec(s[i]);
        let t: u64 = acc * 10 + d;
        let next: u64 = if t >= IP_CAP {
            IP_CAP
        } else {
            t
        };
        ip_scan(s, i + 1, next)
    } else {
        (acc, i)
    }
}

fn frac_scan(s: &Vec<char>, i: usize, acc: u64, k: u64) -> (r: Option<(u64, u64)>)
    requires
        i <= s@.len(),
        k <= 6,
        (acc as int) < pow10(k as int),
    ensures
        match r {
            Some(p) => Some(((p.0 as int, p.1 as int))) == sp_frac_part(
                s@,
                i as int,
                acc as int,
                k as int,
            ) && p.0 < 1_000_000 && p.1 <= 6,
            None => sp_frac_part(s@, i as int, acc as int, k as int) is None,
        },
    decreases s@.len() - i,
{
    if i >= s.len() {
        Some((acc, k))
    } else if s[i] == '.' {
        None
    } else if is_digit_exec(s[i]) {
        if k < 6 {
            frac_scan(s, i + 1, acc * 10 + digit_val_exec(s[i]), k + 1)
        } else {
            frac_scan(s, i + 1, acc, k)
        }
    } else {
        Some((acc, k))
    }
}

fn is_digit_exec(c: char) -> (r: bool)
    ensures
        r == is_digit_char(c),
{
    '0' <= c && c <= '9'
}

fn digit_val_exec(c: char) -> (r: u64)
    requires
        is_digit_char(c),
    ensures
        r as int == digit_val(c),
        r < 10,
{
    (c as u32 - '0' as u32) as u64
}

fn pow10_exec(k: u64) -> (r: u64)
    ensures
        r as int == pow10(k as int),
{
    if k == 0 {
        1
    } else if k == 1 {
        10
    } else if k == 2 {
        100
    } else if k == 3 {
        1000
    } else if k == 4 {
        10000
    } else if k == 5 {
        100000
    } else {
        1000000
    }
}

impl Num {
    /// The number a scanned literal run denotes.
    pub fn from_literal_chars(s: &Vec<char>) -> (r: Num)
        ensures
            r.mantissa as int == sp_num_value(s@),
    {
        let (ip, i) = ip_scan(s, 0, 0);
        if i >= s.len() {
            Num { mantissa: combine_parts(ip, 0, 0) }
        } else if s[i] == '.' {
            match frac_scan(s, i + 1, 0, 0) {
                Some((f, k)) => Num { mantissa: combine_parts(ip, f, k) },
                None => Num { mantissa: 0 },
            }
        } else {
            Num { mantissa: combine_parts(ip, 0, 0) }
        }
    }
}

fn combine_parts(ip: u64, f: u64, k: u64) -> (r: i64)
    requires
        ip <= IP_CAP,
        f < 1_000_000,
        k <= 6,
    ensures
        r as int == clamp(ip * (SCALE as int) + f * pow10(6 - k)),
{
    let frac: u64 = f * pow10_exec(6 - k);
    proof {
        assert(f * pow10(6 - k as int) < 0x10_0000_0000 * 1_000_000) by (nonlinear_arith)
            requires
                0 <= f < 1_000_000,
                0 <= pow10(6 - k as int) <= 1_000_000,
        ;
        assert(ip * (SCALE as int) <= IP_CAP * (SCALE as int)) by (nonlinear_arith)
            requires
                0 <= ip <= IP_CAP as int,
        ;
    }
    let total: u128 = (ip as u128) * (SCALE as u128) + (frac as u128);
    clamp_i128(total as i128)
}

} // verus!

