use vstd::prelude::*;

verus! {

/// The ASCII decimal digits of `n`, most significant first, no leading zero.
pub open spec fn digits_of(n: nat) -> Seq<u8>
    decreases n,
{
    if n < 10 {
        seq![(48 + n) as u8]
    } else {
        digits_of(n / 10).push((48 + n % 10) as u8)
    }
}

/// The decimal text of `n`, as `format!("{}", n)` writes it.
pub open spec fn decimal_of(n: int) -> Seq<u8> {
    if n < 0 {
        seq![45u8] + digits_of((-n) as nat)
    } else {
        digits_of(n as nat)
    }
}

/// Appends the decimal digits of `n` to `out`.
fn push_digits(out: &mut Vec<u8>, n: u64)
    ensures
        final(out)@ == old(out)@ + digits_of(n as nat),
    decreases n,
{
    if n >= 10 {
        push_digits(out, n / 10);
    }
    out.push((48 + n % 10) as u8);
    proof {
        if n >= 10 {
            assert(out@ =~= old(out)@ + digits_of(n as nat));
        } else {
            assert(out@ =~= old(out)@ + digits_of(n as nat));
        }
    }
}

/// The decimal text of `n`.
pub fn decimal(n: i64) -> (r: Vec<u8>)
    ensures
        r@ == decimal_of(n as int),
{
    let mut out: Vec<u8> = Vec::new();
    if n < 0 {
        out.push(45);
        let m: u64 = if n == i64::MIN { 0x8000_0000_0000_0000u64 } else { (-n) as u64 };
        push_digits(&mut out, m);
        assert(out@ =~= seq![45u8] + digits_of((-(n as int)) as nat));
    } else {
        push_digits(&mut out, n as u64);
        assert(out@ =~= digits_of(n as nat));
    }
    out
}

/// Whether `b` is an ASCII decimal digit.
pub open spec fn is_digit(b: u8) -> bool {
    48 <= b <= 57
}

/// The number the ASCII digits `s` spell.
pub open spec fn digits_value(s: Seq<u8>) -> nat
    decreases s.len(),
{
    if s.len() == 0 {
        0
    } else {
        digits_value(s.drop_last()) * 10 + (s.last() - 48) as nat
    }
}

/// The value that the digits `digits` give an `i32`, negated when `neg`:
/// none unless there is at least one digit, all are digits and the value fits.
pub open spec fn parse_digits(digits: Seq<u8>, neg: bool) -> Option<i32> {
    if digits.len() == 0 || exists|i: int| 0 <= i < digits.len() && !is_digit(#[trigger] digits[i]) {
        None
    } else if neg {
        if digits_value(digits) <= 0x8000_0000 { Some((-digits_value(digits)) as i32) } else { None }
    } else {
        if digits_value(digits) <= 0x7fff_ffff { Some(digits_value(digits) as i32) } else { None }
    }
}

/// What `str::parse::<i32>` makes of `s`: an optional sign, then one or
/// more decimal digits whose value fits in an `i32`.
pub open spec fn parse_i32_spec(s: Seq<u8>) -> Option<i32> {
    if s.len() > 0 && (s[0] == 45 || s[0] == 43) {
        parse_digits(s.drop_first(), s[0] == 45)
    } else {
        parse_digits(s, false)
    }
}

/// The value of digits grows with each digit appended.
proof fn lemma_digits_value_grows(s: Seq<u8>, i: int, j: int)
    requires
        0 <= i <= j <= s.len(),
        forall|k: int| 0 <= k < s.len() ==> is_digit(#[trigger] s[k]),
    ensures
        digits_value(s.take(i)) <= digits_value(s.take(j)),
    decreases j - i,
{
    if i < j {
        lemma_digits_value_grows(s, i, j - 1);
        assert(s.take(j).drop_last() =~= s.take(j - 1));
    }
}

/// A prefix whose value is already too large makes the whole parse fail.
proof fn lemma_overflow_fails(digits: Seq<u8>, k: int, neg: bool)
    requires
        0 < k <= digits.len(),
        digits_value(digits.take(k)) > (if neg { 0x8000_0000int } else { 0x7fff_ffffint }),
    ensures
        parse_digits(digits, neg) is None,
{
    if forall|i: int| 0 <= i < digits.len() ==> is_digit(#[trigger] digits[i]) {
        lemma_digits_value_grows(digits, k, digits.len() as int);
        assert(digits.take(digits.len() as int) =~= digits);
    }
}

/// Parses the digits `s[start..]` of a decimal `i32`, negated when `neg`.
fn parse_digits_at(s: &[u8], start: usize, neg: bool) -> (r: Option<i32>)
    requires
        start <= s@.len(),
    ensures
        r == parse_digits(s@.subrange(start as int, s@.len() as int), neg),
{
    let n = s.len();
    let ghost digits = s@.subrange(start as int, n as int);
    if start == n {
        return None;
    }
    let limit: u64 = if neg { 0x8000_0000 } else { 0x7fff_ffff };
    let mut value: u64 = 0;
    let mut i: usize = start;
    while i < n
        invariant
            start <= i <= n,
            n == s@.len(),
            digits == s@.subrange(start as int, n as int),
            forall|k: int| 0 <= k < i - start ==> is_digit(#[trigger] digits[k]),
            value == digits_value(digits.take(i - start)),
            value <= limit,
            limit == (if neg { 0x8000_0000u64 } else { 0x7fff_ffffu64 }),
        decreases n - i,
    {
        let b = s[i];
        assert(digits[i - start] == b);
        if b < 48 || b > 57 {
            assert(!is_digit(digits[i - start]));
            return None;
        }
        assert(digits.take(i - start + 1).drop_last() =~= digits.take(i - start));
        let next = value * 10 + (b - 48) as u64;
        assert(next == digits_value(digits.take(i - start + 1)));
        if next > limit {
            proof {
                lemma_overflow_fails(digits, i - start + 1, neg);
            }
            return None;
        }
        value = next;
        i = i + 1;
    }
    assert(digits.take(n - start) =~= digits);
    if neg {
        Some((0i64 - value as i64) as i32)
    } else {
        Some(value as i32)
    }
}

/// Parses a decimal `i32`, as `str::parse::<i32>` does.
pub fn parse_i32(s: &[u8]) -> (r: Option<i32>)
    ensures
        r == parse_i32_spec(s@),
{
    if s.len() > 0 && (s[0] == 45 || s[0] == 43) {
        assert(s@.drop_first() =~= s@.subrange(1, s@.len() as int));
        parse_digits_at(s, 1, s[0] == 45)
    } else {
        assert(s@ =~= s@.subrange(0, s@.len() as int));
        parse_digits_at(s, 0, false)
    }
}

} // verus!
