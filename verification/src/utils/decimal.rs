use vstd::prelude::*;

verus! {

/// Whether `b` is an ASCII decimal digit.
pub open spec fn is_digit(b: u8) -> bool {
    0x30 <= b <= 0x39
}

/// Whether every byte of `s` is an ASCII decimal digit.
pub open spec fn all_digits(s: Seq<u8>) -> bool {
    forall|i: int| 0 <= i < s.len() ==> is_digit(#[trigger] s[i])
}

/// The number that a string of decimal digits writes; leading zeros count for
/// nothing and the empty string is zero.
pub open spec fn digits_value(s: Seq<u8>) -> nat
    decreases s.len(),
{
    if s.len() == 0 {
        0
    } else {
        (digits_value(s.drop_last()) * 10 + (s.last() - 0x30)) as nat
    }
}

/// The shortest decimal writing of `n`: no leading zero, `"0"` for zero.
pub open spec fn decimal_digits(n: nat) -> Seq<u8>
    decreases n,
{
    if n < 10 {
        seq![(0x30 + n) as u8]
    } else {
        decimal_digits(n / 10).push((0x30 + n % 10) as u8)
    }
}

/// The decimal writing of a signed number: a minus sign before the digits of
/// a negative one.
pub open spec fn signed_decimal(n: int) -> Seq<u8> {
    if n < 0 {
        seq![0x2du8] + decimal_digits((-n) as nat)
    } else {
        decimal_digits(n as nat)
    }
}

/// The digits of `n` are digits, at least one of them, and the first is `0`
/// only for zero itself.
pub proof fn lemma_decimal_digits_shape(n: nat)
    ensures
        decimal_digits(n).len() >= 1,
        all_digits(decimal_digits(n)),
        decimal_digits(n)[0] == 0x30u8 <==> n == 0,
    decreases n,
{
    if n >= 10 {
        lemma_decimal_digits_shape(n / 10);
        let head = decimal_digits(n / 10);
        assert(decimal_digits(n)[0] == head[0]);
        assert forall|i: int| 0 <= i < decimal_digits(n).len() implies is_digit(
            #[trigger] decimal_digits(n)[i],
        ) by {
            if i < head.len() {
                assert(decimal_digits(n)[i] == head[i]);
            }
        }
    }
}

/// Reading the digits of `n` gives `n` back.
pub proof fn lemma_digits_value_of_decimal(n: nat)
    ensures
        digits_value(decimal_digits(n)) == n,
    decreases n,
{
    if n < 10 {
        let s = decimal_digits(n);
        assert(s.drop_last() =~= Seq::<u8>::empty());
        assert(digits_value(s.drop_last()) == 0);
    } else {
        lemma_digits_value_of_decimal(n / 10);
        let s = decimal_digits(n);
        assert(s.drop_last() =~= decimal_digits(n / 10));
    }
}

/// A string of digits never reads as less than one of its prefixes.
pub proof fn lemma_digits_value_prefix(s: Seq<u8>, k: int)
    requires
        all_digits(s),
        0 <= k <= s.len(),
    ensures
        digits_value(s.subrange(0, k)) <= digits_value(s),
    decreases s.len(),
{
    if k == s.len() {
        assert(s.subrange(0, k) =~= s);
    } else {
        let t = s.drop_last();
        assert(all_digits(t)) by {
            assert forall|i: int| 0 <= i < t.len() implies is_digit(#[trigger] t[i]) by {
                assert(t[i] == s[i]);
            }
        }
        lemma_digits_value_prefix(t, k);
        assert(t.subrange(0, k) =~= s.subrange(0, k));
        assert(is_digit(s[s.len() - 1]));
    }
}

/// Appends the decimal writing of `n` to `out`.
pub fn push_decimal(out: &mut Vec<u8>, n: u64)
    ensures
        final(out)@ == old(out)@ + decimal_digits(n as nat),
{
    let mut digits: Vec<u8> = Vec::new();
    let mut rest: u64 = n;
    // Collect the digits from the last to the first.
    while rest >= 10
        invariant
            decimal_digits(n as nat) == decimal_digits(rest as nat) + digits@.reverse(),
        decreases rest,
    {
        let d: u8 = (rest % 10) as u8 + 0x30;
        proof {
            let lower = digits@.reverse();
            assert(digits@.push(d).reverse() =~= seq![d] + lower);
            assert(decimal_digits(rest as nat) == decimal_digits((rest / 10) as nat).push(d));
            assert(decimal_digits((rest / 10) as nat).push(d) + lower =~= decimal_digits(
                (rest / 10) as nat,
            ) + (seq![d] + lower));
        }
        digits.push(d);
        rest = rest / 10;
    }
    let first: u8 = rest as u8 + 0x30;
    out.push(first);
    let ghost base = old(out)@;
    let mut i: usize = digits.len();
    while i > 0
        invariant
            i <= digits@.len(),
            out@ == base + seq![first] + digits@.reverse().subrange(0, digits@.len() - i),
        decreases i,
    {
        i -= 1;
        out.push(digits[i]);
        proof {
            let r = digits@.reverse();
            let k = digits@.len() - i;
            assert(r.subrange(0, k) =~= r.subrange(0, k - 1).push(digits@[i as int]));
            assert(out@ =~= base + seq![first] + r.subrange(0, k));
        }
    }
    proof {
        let r = digits@.reverse();
        assert(r.subrange(0, digits@.len() as int) =~= r);
        assert(decimal_digits(rest as nat) =~= seq![first]);
        assert(out@ =~= base + (seq![first] + r));
    }
}

/// The decimal writing of `n`.
pub fn u64_to_decimal(n: u64) -> (digits: Vec<u8>)
    ensures
        digits@ == decimal_digits(n as nat),
{
    let mut digits: Vec<u8> = Vec::new();
    push_decimal(&mut digits, n);
    assert(digits@ =~= decimal_digits(n as nat));
    digits
}

/// Reads `input[start..end]` as a decimal number of at most `max`.
///
/// `Some(v)` exactly when the range is not empty, holds digits only and
/// writes a number `v <= max`.
pub fn parse_decimal(input: &[u8], start: usize, end: usize, max: u64) -> (value: Option<u64>)
    requires
        start <= end <= input@.len(),
    ensures
        value == decimal_in_range(input@.subrange(start as int, end as int), max),
{
    let ghost text = input@.subrange(start as int, end as int);
    if start == end {
        return None;
    }
    let mut acc: u64 = 0;
    let mut i: usize = start;
    while i < end
        invariant
            start <= i <= end <= input@.len(),
            text == input@.subrange(start as int, end as int),
            all_digits(text.subrange(0, i - start)),
            acc as nat == digits_value(text.subrange(0, i - start)),
            acc <= max,
        decreases end - i,
    {
        let b: u8 = input[i];
        assert(b == text[i - start]);
        if b < 0x30 || b > 0x39 {
            return None;
        }
        let d: u64 = (b - 0x30) as u64;
        let ghost next = text.subrange(0, i - start + 1);
        proof {
            assert(next.drop_last() =~= text.subrange(0, i - start));
            assert(next.last() == b);
            assert(all_digits(next)) by {
                assert forall|j: int| 0 <= j < next.len() implies is_digit(#[trigger] next[j]) by {
                    if j < next.len() - 1 {
                        assert(next[j] == text.subrange(0, i - start)[j]);
                    }
                }
            }
        }
        if d > max || acc > (max - d) / 10 {
            proof {
                // The prefix already writes more than `max`.
                assert(digits_value(next) == acc * 10 + d);
                assert(digits_value(next) > max) by (nonlinear_arith)
                    requires
                        digits_value(next) == acc * 10 + d,
                        d > max || acc > (max - d) / 10,
                        d <= 9,
                ;
                if all_digits(text) {
                    lemma_digits_value_prefix(text, i - start + 1);
                }
            }
            return None;
        }
        assert(acc * 10 + d <= max) by (nonlinear_arith)
            requires
                acc <= (max - d) / 10,
                d <= max,
        ;
        acc = acc * 10 + d;
        i += 1;
    }
    proof {
        assert(text.subrange(0, i - start) =~= text);
    }
    Some(acc)
}

/// What `parse_decimal` reads from a text: its value, if it is a non-empty
/// string of digits that writes at most `max`.
pub open spec fn decimal_in_range(text: Seq<u8>, max: u64) -> Option<u64> {
    if text.len() > 0 && all_digits(text) && digits_value(text) <= max {
        Some(digits_value(text) as u64)
    } else {
        None
    }
}

} // verus!
