//! Numbers as text: decimal rendering, decimal parsing, file sizes.

use vstd::prelude::*;
use vstd::string::*;

use crate::text::chars_of;

verus! {

pub open spec fn is_digit(c: char) -> bool {
    '0' <= c <= '9'
}

/// The digit for `d`, which is less than ten.
pub open spec fn digit(d: int) -> char {
    (d + '0' as int) as char
}

/// The number that a digit stands for.
pub open spec fn digit_value(c: char) -> nat {
    (c as int - '0' as int) as nat
}

/// `n` in decimal, without leading zeros.
pub open spec fn dec(n: nat) -> Seq<char>
    decreases n,
{
    if n < 10 {
        seq![digit(n as int)]
    } else {
        dec(n / 10).push(digit((n % 10) as int))
    }
}

/// The number that a run of digits stands for.
pub open spec fn dec_value(s: Seq<char>) -> nat
    decreases s.len(),
{
    if s.len() == 0 {
        0
    } else {
        dec_value(s.drop_last()) * 10 + digit_value(s.last())
    }
}

pub open spec fn all_digits(s: Seq<char>) -> bool {
    forall|i: int| 0 <= i < s.len() ==> is_digit(#[trigger] s[i])
}

/// Decimal text is made of digits, and stands for the number that it was made from.
pub proof fn lemma_dec(n: nat)
    ensures
        dec(n).len() > 0,
        all_digits(dec(n)),
        dec_value(dec(n)) == n,
    decreases n,
{
    if n < 10 {
        assert(dec(n).drop_last() =~= Seq::<char>::empty());
        assert(dec_value(dec(n).drop_last()) == 0);
    } else {
        lemma_dec(n / 10);
        assert(dec(n).drop_last() =~= dec(n / 10));
    }
}

/// Different numbers have different decimal texts.
pub proof fn lemma_dec_injective(m: nat, n: nat)
    requires
        dec(m) == dec(n),
    ensures
        m == n,
{
    lemma_dec(m);
    lemma_dec(n);
}

fn digit_char(d: u8) -> (c: char)
    requires
        d < 10,
    ensures
        c == digit(d as int),
{
    (48u8 + d) as char
}

/// `n` in decimal.
pub fn decimal(n: u128) -> (r: String)
    ensures
        r@ == dec(n as nat),
    decreases n,
{
    if n < 10 {
        let mut r = String::new();
        r.push(digit_char(n as u8));
        assert(r@ =~= dec(n as nat));
        r
    } else {
        let mut r = decimal(n / 10);
        r.push(digit_char((n % 10) as u8));
        r
    }
}

proof fn lemma_dec_value_grows(s: Seq<char>, i: int)
    requires
        0 <= i <= s.len(),
    ensures
        dec_value(s.take(i)) <= dec_value(s),
    decreases s.len() - i,
{
    if i == s.len() {
        assert(s.take(i) =~= s);
    } else {
        assert(s.take(i + 1).drop_last() =~= s.take(i));
        lemma_dec_value_grows(s, i + 1);
    }
}

/// The number that a non-empty run of digits stands for, where a `u32` can hold it.
pub open spec fn digits_u32(s: Seq<char>) -> Option<nat> {
    if s.len() > 0 && all_digits(s) && dec_value(s) <= u32::MAX {
        Some(dec_value(s))
    } else {
        None
    }
}

/// A `u32` as a natural number.
pub open spec fn u32_view(r: Option<u32>) -> Option<nat> {
    match r {
        Some(n) => Some(n as nat),
        None => None,
    }
}

/// The number that the digits `v[from..]` stand for.
pub fn parse_digits(v: &Vec<char>, from: usize) -> (r: Option<u32>)
    requires
        from <= v@.len(),
    ensures
        u32_view(r) == digits_u32(v@.skip(from as int)),
{
    let ghost s = v@.skip(from as int);
    if from == v.len() {
        return None;
    }
    let mut n: u64 = 0;
    let mut i: usize = from;
    while i < v.len()
        invariant
            from <= i <= v@.len(),
            s == v@.skip(from as int),
            n <= u32::MAX,
            n == dec_value(s.take(i - from)),
            forall|j: int| 0 <= j < i - from ==> is_digit(#[trigger] s[j]),
        decreases v@.len() - i,
    {
        let c = v[i];
        assert(s[i - from] == c);
        if c < '0' || '9' < c {
            assert(!is_digit(s[i - from]));
            return None;
        }
        let d: u32 = c as u32 - '0' as u32;
        assert(s.take(i - from + 1).drop_last() =~= s.take(i - from));
        n = n * 10 + d as u64;
        if n > u32::MAX as u64 {
            proof {
                lemma_dec_value_grows(s, i - from + 1);
            }
            return None;
        }
        i = i + 1;
    }
    assert(s.take(i - from) =~= s);
    Some(n as u32)
}

/// A `u32` written in decimal, with or without a plus sign before it.
pub open spec fn parsed_u32(s: Seq<char>) -> Option<nat> {
    if s.len() > 0 && s[0] == '+' {
        digits_u32(s.skip(1))
    } else {
        digits_u32(s)
    }
}

pub fn parse_u32(s: &str) -> (r: Option<u32>)
    ensures
        u32_view(r) == parsed_u32(s@),
{
    let v = chars_of(s);
    assert(v@.skip(0) =~= v@);
    if v.len() > 0 && v[0] == '+' {
        parse_digits(&v, 1)
    } else {
        parse_digits(&v, 0)
    }
}

/// The longest run of digits that `s` ends with.
pub open spec fn trailing_digits(s: Seq<char>) -> Seq<char>
    decreases s.len(),
{
    if s.len() > 0 && is_digit(s.last()) {
        trailing_digits(s.drop_last()).push(s.last())
    } else {
        Seq::empty()
    }
}

pub proof fn lemma_trailing_digits(s: Seq<char>)
    ensures
        trailing_digits(s).len() <= s.len(),
        trailing_digits(s) == s.skip(s.len() - trailing_digits(s).len()),
        all_digits(trailing_digits(s)),
    decreases s.len(),
{
    if s.len() > 0 && is_digit(s.last()) {
        lemma_trailing_digits(s.drop_last());
        let k = trailing_digits(s.drop_last()).len();
        assert(s.drop_last().skip(s.len() - 1 - k).push(s.last()) =~= s.skip(s.len() - 1 - k));
    } else {
        assert(s.skip(s.len() as int) =~= Seq::<char>::empty());
    }
}

/// A text that ends in a letter and then digits has just these as its trailing digits.
pub proof fn lemma_trailing_digits_of(p: Seq<char>, d: Seq<char>)
    requires
        all_digits(d),
        p.len() > 0 ==> !is_digit(p.last()),
    ensures
        trailing_digits(p + d) == d,
    decreases d.len(),
{
    if d.len() == 0 {
        assert(p + d =~= p);
        assert(trailing_digits(p) =~= d);
    } else {
        lemma_trailing_digits_of(p, d.drop_last());
        assert((p + d).drop_last() =~= p + d.drop_last());
        assert((p + d).last() == d.last());
        assert(is_digit(d[d.len() - 1]));
        assert(d.drop_last().push(d.last()) =~= d);
    }
}

/// The number that an identifier ends with, or zero where it has none that a `u32` can hold.
pub open spec fn numeric_suffix(id: Seq<char>) -> nat {
    match digits_u32(trailing_digits(id)) {
        Some(n) => n,
        None => 0,
    }
}

pub fn suffix_of(id: &str) -> (r: u32)
    ensures
        r == numeric_suffix(id@),
{
    let v = chars_of(id);
    let n: usize = v.len();
    let mut i: usize = n;
    proof {
        lemma_trailing_digits(id@);
    }
    let ghost t = trailing_digits(id@);
    assert(id@.take(n as int) =~= id@);
    while 0 < i && '0' <= v[i - 1] && v[i - 1] <= '9'
        invariant
            i <= n,
            n == v@.len(),
            v@ == id@,
            t.len() == trailing_digits(id@.take(i as int)).len() + (n - i),
        decreases i,
    {
        assert(id@.take(i as int).drop_last() =~= id@.take(i - 1));
        i = i - 1;
    }
    assert(trailing_digits(id@.take(i as int)).len() == 0);
    assert(t == id@.skip(i as int)) by {
        lemma_trailing_digits(id@);
    }
    match parse_digits(&v, i) {
        Some(k) => k,
        None => 0,
    }
}

// ---- File sizes --------------------------------------------------------

/// `a / b` to the nearest integer, and to the even one of two that are as near.
pub open spec fn rounded(a: nat, b: nat) -> nat
    recommends
        b > 0,
{
    let q = a / b;
    let twice = 2 * (a % b);
    if twice > b || (twice == b && q % 2 == 1) {
        q + 1
    } else {
        q
    }
}

/// The distance between the 64-bit floats around `n`: one below 2^53, and twice
/// as much with each further power of two.
pub open spec fn float_step(n: nat) -> nat
    decreases n,
{
    if n < 0x20_0000_0000_0000 {
        1
    } else {
        2 * float_step(n / 2)
    }
}

/// The 64-bit float nearest to `n`.
pub open spec fn nearest_float(n: nat) -> nat {
    rounded(n, float_step(n)) * float_step(n)
}

/// `n / unit` with one decimal place.
pub open spec fn tenths(n: nat, unit: nat) -> Seq<char> {
    let t = rounded(10 * n, unit);
    dec(t / 10) + "."@ + dec(t % 10)
}

/// A size in bytes as a reader likes to see it.
pub open spec fn size_text(n: nat) -> Seq<char> {
    if n < 1024 {
        dec(n) + " B"@
    } else if n < 1024 * 1024 {
        tenths(n, 1024) + " KB"@
    } else {
        tenths(nearest_float(n), 1024 * 1024) + " MB"@
    }
}

fn round_div(a: u128, b: u128) -> (r: u128)
    requires
        0 < b <= 0x1_0000_0000,
        a < u128::MAX,
    ensures
        r == rounded(a as nat, b as nat),
{
    let q: u128 = a / b;
    let twice: u128 = 2 * (a % b);
    if twice > b || (twice == b && q % 2 == 1) {
        assert(q <= a) by (nonlinear_arith)
            requires
                q == a / b,
                b > 0,
        ;
        q + 1
    } else {
        q
    }
}

fn step_of(n: u64) -> (r: u64)
    ensures
        r == float_step(n as nat),
        r == 1 || r * 0x10_0000_0000_0000 <= n,
        1 <= r,
    decreases n,
{
    if n < 0x20_0000_0000_0000 {
        1
    } else {
        let half: u64 = step_of(n / 2);
        2 * half
    }
}

fn float_of(n: u64) -> (r: u128)
    ensures
        r == nearest_float(n as nat),
        r <= 0x1_0000_0000_0000_1000,
{
    let step: u64 = step_of(n);
    let q: u128 = round_div(n as u128, step as u128);
    proof {
        let a = n as int;
        let b = step as int;
        assert(q * b <= a + b) by (nonlinear_arith)
            requires
                b > 0,
                a >= 0,
                q <= a / b + 1,
        ;
    }
    q * step as u128
}

fn push_tenths(s: &mut String, n: u128, unit: u128)
    requires
        n <= 0x1_0000_0000_0000_1000,
        unit == 1024 || unit == 1024 * 1024,
    ensures
        final(s)@ == old(s)@ + tenths(n as nat, unit as nat),
{
    let t: u128 = round_div(10 * n, unit);
    proof {
        let a = (10 * n) as nat;
        if unit == 1024 {
            assert(rounded(a, 1024) <= a / 1024 + 1);
        } else {
            assert(rounded(a, 0x10_0000) <= a / 0x10_0000 + 1);
        }
        assert(t <= 0x300_0000_0000_0000);
    }
    s.append(decimal((t / 10) as u128).as_str());
    s.append(".");
    s.append(decimal((t % 10) as u128).as_str());
    assert(s@ =~= old(s)@ + tenths(n as nat, unit as nat));
}

pub fn human_bytes(size: usize) -> (r: String)
    ensures
        r@ == size_text(size as nat),
{
    let n: u64 = size as u64;
    if n < 1024 {
        let mut r = decimal(n as u128);
        r.append(" B");
        r
    } else if n < 1024 * 1024 {
        let mut r = String::new();
        push_tenths(&mut r, n as u128, 1024);
        r.append(" KB");
        assert(r@ =~= size_text(n as nat));
        r
    } else {
        let mut r = String::new();
        push_tenths(&mut r, float_of(n), 1024 * 1024);
        r.append(" MB");
        assert(r@ =~= size_text(n as nat));
        r
    }
}

// ---- Laws --------------------------------------------------------------

/// A quotient is rounded to an integer that is no further off than half the divisor, and to
/// the even one of two that are as near.
pub proof fn law_rounding_is_to_the_nearest(a: nat, b: nat)
    requires
        b > 0,
    ensures
        2 * (a - rounded(a, b) * b) <= b,
        2 * (rounded(a, b) * b - a) <= b,
        2 * (a - rounded(a, b) * b) == b || 2 * (rounded(a, b) * b - a) == b ==> rounded(a, b) % 2
            == 0,
{
    let q = a / b;
    let r = a % b;
    assert(a == q * b + r && r < b) by (nonlinear_arith)
        requires
            q == a / b,
            r == a % b,
            b > 0,
    ;
    assert((q + 1) * b == q * b + b) by (nonlinear_arith);
}

/// A size is given in bytes where it is below a kilobyte, and else in kilobytes or megabytes
/// with one decimal: the one that is nearest to it.
pub proof fn law_size_is_shown_to_one_decimal(n: nat)
    ensures
        n < 1024 ==> size_text(n) == dec(n) + " B"@,
        1024 <= n < 1024 * 1024 ==> exists|t: nat|
            size_text(n) == #[trigger] dec(t / 10) + "."@ + dec(t % 10) + " KB"@ && 2 * (10 * n - t
                * 1024) <= 1024 && 2 * (t * 1024 - 10 * n) <= 1024,
        1024 * 1024 <= n < 0x20_0000_0000_0000 ==> exists|t: nat|
            size_text(n) == #[trigger] dec(t / 10) + "."@ + dec(t % 10) + " MB"@ && 2 * (10 * n - t
                * 0x10_0000) <= 0x10_0000 && 2 * (t * 0x10_0000 - 10 * n) <= 0x10_0000,
{
    if n >= 1024 {
        if n < 1024 * 1024 {
            let t = rounded(10 * n, 1024);
            law_rounding_is_to_the_nearest(10 * n, 1024);
            assert(size_text(n) == dec(t / 10) + "."@ + dec(t % 10) + " KB"@);
        } else if n < 0x20_0000_0000_0000 {
            assert(float_step(n) == 1);
            assert(nearest_float(n) == n) by {
                assert(rounded(n, 1) == n);
            }
            let t = rounded(10 * n, 0x10_0000);
            law_rounding_is_to_the_nearest(10 * n, 0x10_0000);
            assert(size_text(n) == dec(t / 10) + "."@ + dec(t % 10) + " MB"@);
        }
    }
}

/// A number that was written is read back, with or without a plus sign before it; a text that
/// is not all digits is no number, and an id ends with the number that was put behind it.
pub proof fn law_numbers_are_read_back(n: nat, s: Seq<char>, i: int)
    requires
        n <= u32::MAX,
    ensures
        parsed_u32(dec(n)) == Some(n),
        parsed_u32("+"@ + dec(n)) == Some(n),
        parsed_u32(Seq::empty()) is None,
        0 <= i < s.len() && s[0] != '+' && !('0' <= s[i] <= '9') ==> parsed_u32(s) is None,
        s.len() > 0 && !('0' <= s.last() <= '9') ==> numeric_suffix(s + dec(n)) == n
            && numeric_suffix(s) == 0,
{
    lemma_dec(n);
    reveal_strlit("+");
    let t = "+"@ + dec(n);
    assert(t[0] == '+');
    assert(t.skip(1) =~= dec(n));
    assert(is_digit(dec(n)[0]));
    if 0 <= i < s.len() && s[0] != '+' && !('0' <= s[i] <= '9') {
        assert(!is_digit(s[i]));
    }
    if s.len() > 0 && !('0' <= s.last() <= '9') {
        lemma_trailing_digits_of(s, dec(n));
    }
}

} // verus!
