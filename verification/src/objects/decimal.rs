//! Decimal text of lengths, as the object header writes and reads it.
use vstd::prelude::*;

verus! {

/// The ASCII decimal digits of `n`, most significant first, without leading
/// zeros (`0` is the single digit `0`).
pub open spec fn decimal(n: nat) -> Seq<u8>
    decreases n,
{
    if n < 10 {
        seq![(48 + n) as u8]
    } else {
        decimal(n / 10).push((48 + n % 10) as u8)
    }
}

/// The decimal digits of `n` as characters.
pub open spec fn decimal_chars(n: nat) -> Seq<char> {
    decimal(n).map_values(|b: u8| b as char)
}

/// An ASCII decimal digit.
pub open spec fn is_digit(b: u8) -> bool {
    48 <= b && b <= 57
}

/// Every byte of `s` is an ASCII decimal digit.
pub open spec fn all_digits(s: Seq<u8>) -> bool {
    forall|i: int| 0 <= i < s.len() ==> is_digit(#[trigger] s[i])
}

/// The number that a run of decimal digits stands for.
pub open spec fn digits_value(d: Seq<u8>) -> nat
    decreases d.len(),
{
    if d.len() == 0 {
        0
    } else {
        digits_value(d.drop_last()) * 10 + (d.last() - 48) as nat
    }
}

/// The digits of an unsigned number in text: all of it, or what follows a
/// single leading `+`.
pub open spec fn unsigned_digits(s: Seq<u8>) -> Seq<u8> {
    if s.len() > 0 && s[0] == 43 {
        s.skip(1)
    } else {
        s
    }
}

/// What reading `s` as a `usize` gives: `None` unless `s` is an optional `+`
/// followed by one or more decimal digits whose value fits in a `usize`.
pub open spec fn parse_decimal(s: Seq<u8>) -> Option<nat> {
    let d = unsigned_digits(s);
    if d.len() > 0 && all_digits(d) && digits_value(d) <= usize::MAX {
        Some(digits_value(d))
    } else {
        None
    }
}

/// Decimal text consists of digits, at least one, and reads back as the
/// number it was written from.
pub proof fn lemma_decimal_digits(n: nat)
    ensures
        decimal(n).len() > 0,
        all_digits(decimal(n)),
        digits_value(decimal(n)) == n,
    decreases n,
{
    if n >= 10 {
        lemma_decimal_digits(n / 10);
        let d = decimal(n);
        assert(d.drop_last() =~= decimal(n / 10));
        assert(d.last() == 48 + n % 10);
        assert((n / 10) * 10 + n % 10 == n);
        assert(digits_value(d) == digits_value(decimal(n / 10)) * 10 + (n % 10));
        assert forall|i: int| 0 <= i < d.len() implies is_digit(#[trigger] d[i]) by {
            if i < d.len() - 1 {
                assert(d[i] == decimal(n / 10)[i]);
            }
        }
    } else {
        let d = decimal(n);
        assert(d.drop_last() =~= Seq::<u8>::empty());
        assert(d.last() == 48 + n);
        assert(digits_value(d) == digits_value(d.drop_last()) * 10 + (d.last() - 48) as nat);
    }
}

/// Writing a number and reading it back gives the number.
pub proof fn lemma_parse_decimal_roundtrip(n: nat)
    requires
        n <= usize::MAX,
    ensures
        parse_decimal(decimal(n)) == Some(n),
{
    lemma_decimal_digits(n);
    assert(unsigned_digits(decimal(n)) == decimal(n));
}

/// Decimal text is plain ASCII.
pub proof fn lemma_decimal_ascii(n: nat)
    ensures
        forall|i: int| 0 <= i < decimal(n).len() ==> #[trigger] decimal(n)[i] < 128,
{
    lemma_decimal_digits(n);
    assert forall|i: int| 0 <= i < decimal(n).len() implies #[trigger] decimal(n)[i] < 128 by {
        assert(is_digit(decimal(n)[i]));
    }
}

/// A prefix of a run of digits is worth no more than the whole run.
proof fn lemma_prefix_value(d: Seq<u8>, k: int)
    requires
        0 <= k <= d.len(),
        all_digits(d),
    ensures
        digits_value(d.take(k)) <= digits_value(d),
    decreases d.len(),
{
    if k < d.len() {
        let rest = d.drop_last();
        assert(d.take(k) =~= rest.take(k));
        assert(all_digits(rest)) by {
            assert forall|i: int| 0 <= i < rest.len() implies is_digit(#[trigger] rest[i]) by {
                assert(rest[i] == d[i]);
            }
        }
        lemma_prefix_value(rest, k);
    } else {
        assert(d.take(k) =~= d);
    }
}

/// Digit text as numbers are plainly written: one or more decimal digits,
/// with no leading zero unless the number is zero itself.
pub open spec fn is_plain_decimal(d: Seq<u8>) -> bool {
    &&& d.len() > 0
    &&& all_digits(d)
    &&& (d[0] == 48u8 ==> d.len() == 1)
}

/// Decimal text has no leading zero: it starts with `0` only for zero,
/// which is the single digit `0`.
pub proof fn lemma_decimal_no_leading_zero(n: nat)
    ensures
        decimal(n).len() > 0,
        decimal(n)[0] == 48u8 <==> n == 0,
        n == 0 ==> decimal(n) == seq![48u8],
    decreases n,
{
    if n >= 10 {
        lemma_decimal_no_leading_zero(n / 10);
        assert(decimal(n)[0] == decimal(n / 10)[0]);
    }
}

/// The plain decimal text of a number is the only one: any digit text with
/// no leading zero is the decimal text of its value.
pub proof fn lemma_plain_decimal_unique(d: Seq<u8>)
    requires
        is_plain_decimal(d),
    ensures
        d == decimal(digits_value(d)),
    decreases d.len(),
{
    if d.len() == 1 {
        assert(d.drop_last() =~= Seq::<u8>::empty());
        assert(is_digit(d[0]));
        assert(digits_value(d.drop_last()) == 0);
        assert(d.last() == d[0]);
        assert(digits_value(d) == (d[0] - 48) as nat);
        assert(decimal(digits_value(d)) =~= d);
    } else {
        let e = d.drop_last();
        assert(all_digits(e)) by {
            assert forall|i: int| 0 <= i < e.len() implies is_digit(#[trigger] e[i]) by {
                assert(e[i] == d[i]);
            }
        }
        assert(e[0] == d[0]);
        lemma_plain_decimal_unique(e);
        let v = digits_value(e);
        lemma_prefix_value(e, 1);
        assert(e.take(1).drop_last() =~= Seq::<u8>::empty());
        assert(digits_value(e.take(1).drop_last()) == 0);
        assert(e.take(1).last() == e[0]);
        assert(digits_value(e.take(1)) == (e[0] - 48) as nat);
        assert(v >= 1);
        assert(is_digit(d[d.len() - 1]));
        let r = (d.last() - 48) as nat;
        let n = digits_value(d);
        assert(n == v * 10 + r);
        assert(r < 10);
        assert(n / 10 == v);
        assert(n % 10 == r);
        assert(decimal(n) =~= decimal(v).push((48 + r) as u8));
        assert(d =~= e.push(d.last()));
    }
}

/// `decimal(n)` is the one plain digit text whose value is `n`.
pub proof fn lemma_decimal_is_the_plain_text(n: nat, d: Seq<u8>)
    ensures
        is_plain_decimal(decimal(n)),
        digits_value(decimal(n)) == n,
        is_plain_decimal(d) && digits_value(d) == n ==> d == decimal(n),
{
    lemma_decimal_digits(n);
    lemma_decimal_no_leading_zero(n);
    if is_plain_decimal(d) {
        lemma_plain_decimal_unique(d);
    }
}

/// The decimal digits of `n`, most significant first.
pub fn format_decimal(n: usize) -> (res: Vec<u8>)
    ensures
        res@ == decimal(n as nat),
    decreases n,
{
    if n < 10 {
        let mut res: Vec<u8> = Vec::new();
        res.push((48 + n) as u8);
        assert(res@ =~= decimal(n as nat));
        res
    } else {
        let mut res = format_decimal(n / 10);
        res.push((48 + n % 10) as u8);
        res
    }
}

/// Read `s` as a `usize`, the way `str::parse::<usize>` does: an optional
/// `+`, then one or more decimal digits whose value fits.
pub fn parse_usize(s: &[u8]) -> (res: Option<usize>)
    ensures
        match parse_decimal(s@) {
            Some(n) => res == Some(n as usize),
            None => res is None,
        },
{
    let start: usize = if s.len() > 0 && s[0] == 43 {
        1
    } else {
        0
    };
    let ghost d = unsigned_digits(s@);
    assert(d =~= s@.subrange(start as int, s@.len() as int));
    if start >= s.len() {
        return None;
    }
    let mut acc: usize = 0;
    let mut i: usize = start;
    while i < s.len()
        invariant
            start <= i <= s@.len(),
            start < s@.len(),
            d == unsigned_digits(s@),
            d =~= s@.subrange(start as int, s@.len() as int),
            all_digits(d.take(i - start)),
            acc as nat == digits_value(d.take(i - start)),
        decreases s@.len() - i,
    {
        let c = s[i];
        let ghost k = i - start;
        assert(d.take(k + 1).drop_last() =~= d.take(k));
        assert(d[k] == c);
        if c < 48 || c > 57 {
            assert(!is_digit(d[k]));
            return None;
        }
        assert(all_digits(d.take(k + 1))) by {
            assert forall|j: int| 0 <= j < k + 1 implies is_digit(#[trigger] d.take(k + 1)[j]) by {
                if j < k {
                    assert(d.take(k + 1)[j] == d.take(k)[j]);
                }
            }
        }
        let digit = (c - 48) as usize;
        assert(digits_value(d.take(k + 1)) == digits_value(d.take(k)) * 10 + digit);
        match acc.checked_mul(10) {
            None => {
                proof {
                    if all_digits(d) {
                        lemma_prefix_value(d, k + 1);
                    }
                }
                return None;
            },
            Some(m) => match m.checked_add(digit) {
                None => {
                    proof {
                        if all_digits(d) {
                            lemma_prefix_value(d, k + 1);
                        }
                    }
                    return None;
                },
                Some(next) => {
                    acc = next;
                },
            },
        }
        i = i + 1;
    }
    assert(d.take(i - start) =~= d);
    Some(acc)
}

} // verus!
