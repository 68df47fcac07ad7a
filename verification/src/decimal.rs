//! Decimal notation of machine integers: the text that `Display` gives an
//! integer, and the integers that `str::parse` reads back from a text.
use vstd::prelude::*;
use crate::text::push_char;

verus! {

/// `c` is one of the ASCII digits `0` to `9`.
pub open spec fn is_digit(c: char) -> bool {
    48 <= (c as int) <= 57
}

/// The value of the digit `c`.
pub open spec fn digit_value(c: char) -> int {
    (c as int) - 48
}

/// The digit that stands for `d` (for `0 <= d < 10`).
pub open spec fn digit_char(d: int) -> char {
    (d + 48) as char
}

/// Every character of `s` is a digit.
pub open spec fn all_digits(s: Seq<char>) -> bool {
    forall|i: int| 0 <= i < s.len() ==> is_digit(#[trigger] s[i])
}

/// The number that the digits `s` write in base ten (leading zeros allowed).
pub open spec fn digits_value(s: Seq<char>) -> int
    decreases s.len(),
{
    if s.len() == 0 {
        0
    } else {
        digits_value(s.drop_last()) * 10 + digit_value(s.last())
    }
}

/// The shortest decimal notation of `n`: no sign, no leading zero.
pub open spec fn decimal(n: nat) -> Seq<char>
    decreases n,
{
    if n < 10 {
        seq![digit_char(n as int)]
    } else {
        decimal(n / 10).push(digit_char((n % 10) as int))
    }
}

/// The decimal notation of `i`, with a leading `-` when `i` is negative.
pub open spec fn signed_decimal(i: int) -> Seq<char> {
    if i < 0 {
        seq!['-'] + decimal((-i) as nat)
    } else {
        decimal(i as nat)
    }
}

/// What `s.parse::<u32>()` gives: an optional `+`, then one digit or more,
/// whose value fits in a `u32`; anything else is refused.
pub open spec fn spec_parse_u32(s: Seq<char>) -> Option<u32> {
    let body = if s.len() > 0 && s[0] == '+' {
        s.drop_first()
    } else {
        s
    };
    if body.len() > 0 && all_digits(body) && digits_value(body) <= u32::MAX {
        Some(digits_value(body) as u32)
    } else {
        None
    }
}

/// What `s.parse::<i32>()` gives: an optional `+` or `-`, then one digit or
/// more, whose signed value fits in an `i32`; anything else is refused.
pub open spec fn spec_parse_i32(s: Seq<char>) -> Option<i32> {
    let negative = s.len() > 0 && s[0] == '-';
    let body = if s.len() > 0 && (s[0] == '+' || s[0] == '-') {
        s.drop_first()
    } else {
        s
    };
    let v = digits_value(body);
    if body.len() > 0 && all_digits(body) {
        if negative && v <= 0x8000_0000 {
            Some((-v) as i32)
        } else if !negative && v <= i32::MAX {
            Some(v as i32)
        } else {
            None
        }
    } else {
        None
    }
}

proof fn lemma_digit_char(d: int)
    requires
        0 <= d < 10,
    ensures
        is_digit(digit_char(d)),
        digit_value(digit_char(d)) == d,
{
}

/// Digits never lose value when more digits follow them.
proof fn lemma_prefix_value_le(s: Seq<char>, k: int)
    requires
        all_digits(s),
        0 <= k <= s.len(),
    ensures
        0 <= digits_value(s.take(k)) <= digits_value(s),
    decreases s.len(),
{
    if k == s.len() {
        assert(s.take(k) =~= s);
        lemma_value_nonneg(s);
    } else {
        let t = s.drop_last();
        assert(all_digits(t)) by {
            assert forall|i: int| 0 <= i < t.len() implies is_digit(#[trigger] t[i]) by {
                assert(t[i] == s[i]);
            }
        }
        assert(t.take(k) =~= s.take(k));
        lemma_prefix_value_le(t, k);
        assert(is_digit(s[s.len() - 1]));
    }
}

proof fn lemma_value_nonneg(s: Seq<char>)
    requires
        all_digits(s),
    ensures
        digits_value(s) >= 0,
    decreases s.len(),
{
    if s.len() > 0 {
        let t = s.drop_last();
        assert(all_digits(t)) by {
            assert forall|i: int| 0 <= i < t.len() implies is_digit(#[trigger] t[i]) by {
                assert(t[i] == s[i]);
            }
        }
        lemma_value_nonneg(t);
        assert(is_digit(s[s.len() - 1]));
    }
}

/// The shortest decimal notation of `n` is made of digits, and reads as `n`.
pub proof fn lemma_decimal_reads_back(n: nat)
    ensures
        decimal(n).len() > 0,
        all_digits(decimal(n)),
        digits_value(decimal(n)) == n,
    decreases n,
{
    if n < 10 {
        lemma_digit_char(n as int);
        assert(decimal(n).drop_last() =~= Seq::<char>::empty());
        assert(digits_value(Seq::<char>::empty()) == 0);
        assert(digits_value(decimal(n)) == n);
    } else {
        lemma_decimal_reads_back(n / 10);
        lemma_digit_char((n % 10) as int);
        let d = decimal(n / 10);
        assert(decimal(n).drop_last() =~= d);
        assert(decimal(n).last() == digit_char((n % 10) as int));
        assert((n / 10) * 10 + n % 10 == n);
        assert(digits_value(decimal(n)) == digits_value(d) * 10 + (n % 10) as int);
        assert forall|i: int| 0 <= i < decimal(n).len() implies is_digit(#[trigger] decimal(n)[i]) by {
            if i < d.len() {
                assert(decimal(n)[i] == d[i]);
            }
        }
    }
}

/// Reading back the notation of a `u32` gives the same `u32`.
pub proof fn lemma_parse_u32_of_decimal(n: u32)
    ensures
        spec_parse_u32(decimal(n as nat)) == Some(n),
{
    lemma_decimal_reads_back(n as nat);
    assert(is_digit(decimal(n as nat)[0]));
}

/// Reading back the notation of an `i32` gives the same `i32`.
pub proof fn lemma_parse_i32_of_signed_decimal(n: i32)
    ensures
        spec_parse_i32(signed_decimal(n as int)) == Some(n),
{
    if n < 0 {
        let m = (-n) as nat;
        lemma_decimal_reads_back(m);
        let s = signed_decimal(n as int);
        assert(s.drop_first() =~= decimal(m));
    } else {
        lemma_decimal_reads_back(n as nat);
        assert(is_digit(decimal(n as nat)[0]));
    }
}

fn digit(d: u32) -> (c: char)
    requires
        d < 10,
    ensures
        c == digit_char(d as int),
{
    ((d as u8) + 48u8) as char
}

/// Appends the shortest decimal notation of `n` to `out`, as
/// `write!(out, "{}", n)` does.
pub fn push_u32(out: &mut String, n: u32)
    ensures
        final(out)@ == old(out)@ + decimal(n as nat),
    decreases n,
{
    if n >= 10 {
        push_u32(out, n / 10);
    }
    push_char(out, digit(n % 10));
    assert(out@ =~= old(out)@ + decimal(n as nat));
}

/// Appends the decimal notation of `n` to `out`, with a leading `-` when
/// `n` is negative, as `write!(out, "{}", n)` does.
pub fn push_i32(out: &mut String, n: i32)
    ensures
        final(out)@ == old(out)@ + signed_decimal(n as int),
{
    if n < 0 {
        push_char(out, '-');
        let m: i64 = 0i64 - (n as i64);
        push_u32(out, m as u32);
        assert(out@ =~= old(out)@ + signed_decimal(n as int));
    } else {
        push_u32(out, n as u32);
    }
}

/// Reads the digits `cs[from..]` as one number: `None` when there are none,
/// when one is not a digit, or when their value exceeds `cap`.
fn read_digits(cs: &Vec<char>, from: usize, cap: u64) -> (r: Option<u64>)
    requires
        from <= cs.len(),
        cap <= 0x1_0000_0000,
    ensures
        ({
            let body = cs@.skip(from as int);
            &&& r is Some <==> (body.len() > 0 && all_digits(body) && digits_value(body) <= cap)
            &&& r matches Some(v) ==> v == digits_value(body)
        }),
{
    let ghost body = cs@.skip(from as int);
    if from == cs.len() {
        return None;
    }
    let mut acc: u64 = 0;
    let mut i: usize = from;
    assert(cs@.subrange(from as int, from as int) =~= Seq::<char>::empty());
    while i < cs.len()
        invariant
            from < cs.len(),
            from <= i <= cs.len(),
            cap <= 0x1_0000_0000,
            body == cs@.skip(from as int),
            all_digits(cs@.subrange(from as int, i as int)),
            acc == digits_value(cs@.subrange(from as int, i as int)),
            acc <= cap,
        decreases cs.len() - i,
    {
        let c = cs[i];
        if c < '0' || c > '9' {
            assert(body[i - from] == c);
            return None;
        }
        let ghost prev = cs@.subrange(from as int, i as int);
        let ghost next = cs@.subrange(from as int, i + 1);
        assert(next.drop_last() =~= prev);
        assert(next.last() == c);
        acc = acc * 10 + ((c as u8) - 48u8) as u64;
        assert(all_digits(next)) by {
            assert forall|k: int| 0 <= k < next.len() implies is_digit(#[trigger] next[k]) by {
                if k < prev.len() {
                    assert(next[k] == prev[k]);
                }
            }
        }
        if acc > cap {
            proof {
                if all_digits(body) {
                    assert(body.take(i + 1 - from) =~= next);
                    lemma_prefix_value_le(body, i + 1 - from);
                }
            }
            return None;
        }
        i = i + 1;
    }
    assert(cs@.subrange(from as int, i as int) =~= body);
    Some(acc)
}

/// Reads `cs[from..]` as a `u32`, as `str::parse::<u32>` does.
pub fn parse_u32_at(cs: &Vec<char>, from: usize) -> (r: Option<u32>)
    requires
        from <= cs.len(),
    ensures
        r == spec_parse_u32(cs@.skip(from as int)),
{
    let ghost s = cs@.skip(from as int);
    let start: usize = if from < cs.len() && cs[from] == '+' {
        from + 1
    } else {
        from
    };
    assert(s.len() > 0 ==> cs@.skip(from + 1) =~= s.drop_first());
    match read_digits(cs, start, 0xffff_ffff) {
        Some(v) => Some(v as u32),
        None => None,
    }
}

/// Reads `cs[from..]` as an `i32`, as `str::parse::<i32>` does.
pub fn parse_i32_at(cs: &Vec<char>, from: usize) -> (r: Option<i32>)
    requires
        from <= cs.len(),
    ensures
        r == spec_parse_i32(cs@.skip(from as int)),
{
    let ghost s = cs@.skip(from as int);
    let negative = from < cs.len() && cs[from] == '-';
    let start: usize = if from < cs.len() && (cs[from] == '+' || cs[from] == '-') {
        from + 1
    } else {
        from
    };
    assert(s.len() > 0 ==> cs@.skip(from + 1) =~= s.drop_first());
    let cap: u64 = if negative {
        0x8000_0000
    } else {
        0x7fff_ffff
    };
    match read_digits(cs, start, cap) {
        Some(v) => {
            if negative {
                Some((0i64 - v as i64) as i32)
            } else {
                Some(v as i32)
            }
        },
        None => None,
    }
}

/// A nonempty run of digits that starts with a nonzero digit is worth at
/// least one.
proof fn lemma_leading_digit_positive(s: Seq<char>)
    requires
        s.len() > 0,
        all_digits(s),
        s[0] != '0',
    ensures
        digits_value(s) >= 1,
{
    lemma_prefix_value_le(s, 1);
    let one = s.take(1);
    assert(one.drop_last() =~= Seq::<char>::empty());
    assert(one.last() == s[0]);
}

/// `decimal(n)` is the shortest notation of `n`: made of digits, worth `n`,
/// one digit long below ten, and never led by a `0` unless it is `0` itself.
/// It is the only such notation: every run of digits that is worth `n` and
/// has no leading zero is `decimal(n)`.
pub proof fn lemma_decimal_is_shortest(n: nat, s: Seq<char>)
    ensures
        decimal(n).len() > 0,
        all_digits(decimal(n)),
        digits_value(decimal(n)) == n,
        n < 10 ==> decimal(n).len() == 1,
        decimal(n)[0] == '0' ==> n == 0 && decimal(n).len() == 1,
        s.len() > 0 && all_digits(s) && (s[0] == '0' ==> s.len() == 1) && digits_value(s) == n
            ==> s == decimal(n),
    decreases s.len(),
{
    lemma_decimal_reads_back(n);
    lemma_no_leading_zero(n);
    if s.len() > 0 && all_digits(s) && (s[0] == '0' ==> s.len() == 1) && digits_value(s) == n {
        let c = s.last();
        assert(is_digit(s[s.len() - 1]));
        assert(c == s[s.len() - 1]);
        let d = digit_value(c);
        if s.len() == 1 {
            assert(s.drop_last() =~= Seq::<char>::empty());
            assert(n == d);
            assert(c == digit_char(d));
            assert(s =~= decimal(n));
        } else {
            let t = s.drop_last();
            assert(all_digits(t)) by {
                assert forall|i: int| 0 <= i < t.len() implies is_digit(#[trigger] t[i]) by {
                    assert(t[i] == s[i]);
                }
            }
            assert(t[0] == s[0]);
            lemma_leading_digit_positive(t);
            lemma_value_nonneg(t);
            let m = digits_value(t);
            assert(n == m * 10 + d);
            assert(n / 10 == m && n % 10 == d);
            lemma_decimal_is_shortest(m as nat, t);
            assert(c == digit_char(d));
            assert(s =~= decimal(m as nat).push(c));
        }
    }
}

/// The notation of `n` starts with `0` only for `n == 0`.
proof fn lemma_no_leading_zero(n: nat)
    ensures
        decimal(n)[0] == '0' ==> n == 0,
        n < 10 ==> decimal(n).len() == 1,
    decreases n,
{
    if n >= 10 {
        lemma_no_leading_zero(n / 10);
        lemma_decimal_reads_back(n / 10);
        assert(decimal(n)[0] == decimal(n / 10)[0]);
    }
}

/// Reading digits: an optional `+` and then any nonempty run of digits
/// reads as the `u32` it writes, when it fits; a run worth more is refused.
pub proof fn lemma_parse_u32_of_digits(s: Seq<char>)
    requires
        s.len() > 0,
        all_digits(s),
    ensures
        digits_value(s) <= u32::MAX ==> spec_parse_u32(s) == Some(digits_value(s) as u32)
            && spec_parse_u32(seq!['+'] + s) == Some(digits_value(s) as u32),
        digits_value(s) > u32::MAX ==> spec_parse_u32(s) is None && spec_parse_u32(seq!['+'] + s) is None,
{
    assert(is_digit(s[0]));
    assert((seq!['+'] + s).drop_first() =~= s);
}

/// Reading digits as an `i32`: a run of digits, with `+` or without a sign,
/// reads as its value when it is at most `i32::MAX`; after `-` it reads as
/// minus its value when that is at least `i32::MIN`.
pub proof fn lemma_parse_i32_of_digits(s: Seq<char>)
    requires
        s.len() > 0,
        all_digits(s),
    ensures
        digits_value(s) <= i32::MAX ==> spec_parse_i32(s) == Some(digits_value(s) as i32)
            && spec_parse_i32(seq!['+'] + s) == Some(digits_value(s) as i32),
        digits_value(s) > i32::MAX ==> spec_parse_i32(s) is None && spec_parse_i32(seq!['+'] + s) is None,
        digits_value(s) <= 0x8000_0000 ==> spec_parse_i32(seq!['-'] + s) == Some((-digits_value(s)) as i32),
        digits_value(s) > 0x8000_0000 ==> spec_parse_i32(seq!['-'] + s) is None,
{
    assert(is_digit(s[0]));
    assert((seq!['+'] + s).drop_first() =~= s);
    assert((seq!['-'] + s).drop_first() =~= s);
}

}
