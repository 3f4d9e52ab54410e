//! Canonical decimal text of integers: no sign for non-negative numbers, a
//! leading `-` for negative ones, and no superfluous leading zero. Every
//! integer has exactly one such text.

use vstd::prelude::*;

verus! {

/// The byte `-`.
pub const MINUS: u8 = 45;

/// The byte `0`.
pub const ZERO: u8 = 48;

/// Whether `b` is one of the bytes `0` to `9`.
pub open spec fn is_digit(b: u8) -> bool {
    48 <= b <= 57
}

/// The decimal digits of `n`, most significant first.
pub open spec fn digits(n: nat) -> Seq<u8>
    decreases n,
{
    if n < 10 {
        seq![(48 + n) as u8]
    } else {
        digits(n / 10).push((48 + n % 10) as u8)
    }
}

/// The canonical decimal text of `v`.
pub open spec fn decimal(v: int) -> Seq<u8> {
    if v < 0 {
        seq![45u8] + digits((-v) as nat)
    } else {
        digits(v as nat)
    }
}

/// The number that the digits `s` spell, most significant first.
pub open spec fn digits_value(s: Seq<u8>) -> nat
    decreases s.len(),
{
    if s.len() == 0 {
        0
    } else {
        digits_value(s.drop_last()) * 10 + (s.last() - 48) as nat
    }
}

/// Whether `s` is a non-empty run of digits without a superfluous leading
/// zero.
pub open spec fn is_canonical_digits(s: Seq<u8>) -> bool {
    &&& s.len() > 0
    &&& forall|i: int| 0 <= i < s.len() ==> is_digit(#[trigger] s[i])
    &&& s.len() > 1 ==> s[0] != 48
}

/// The integer whose canonical decimal text is `s`, if there is one.
pub open spec fn parse_decimal(s: Seq<u8>) -> Option<int> {
    if s.len() > 0 && s[0] == 45 {
        let magnitude = s.drop_first();
        if is_canonical_digits(magnitude) && digits_value(magnitude) > 0 {
            Some(-(digits_value(magnitude) as int))
        } else {
            None
        }
    } else if is_canonical_digits(s) {
        Some(digits_value(s) as int)
    } else {
        None
    }
}

/// The digits of a number are canonical and spell that number.
pub proof fn lemma_digits_spell(n: nat)
    ensures
        is_canonical_digits(digits(n)),
        digits_value(digits(n)) == n,
        n > 0 ==> digits(n)[0] != 48,
    decreases n,
{
    if n < 10 {
        let s = digits(n);
        assert(s.drop_last() =~= Seq::<u8>::empty());
        assert(digits_value(s.drop_last()) == 0);
    } else {
        lemma_digits_spell(n / 10);
        let head = digits(n / 10);
        let s = digits(n);
        assert(s.drop_last() =~= head);
        assert(s[0] == head[0]);
        assert forall|i: int| 0 <= i < s.len() implies is_digit(#[trigger] s[i]) by {
            if i < head.len() {
                assert(s[i] == head[i]);
            }
        }
    }
}

/// Canonical digits are the digits of the number they spell.
pub proof fn lemma_canonical_digits_unique(s: Seq<u8>)
    requires
        is_canonical_digits(s),
    ensures
        digits(digits_value(s)) == s,
    decreases s.len(),
{
    if s.len() == 1 {
        assert(s.drop_last() =~= Seq::<u8>::empty());
        assert(digits_value(s.drop_last()) == 0);
        assert(is_digit(s[0]));
        assert(digits(digits_value(s)) =~= s);
    } else {
        let head = s.drop_last();
        assert(head[0] == s[0]);
        assert forall|i: int| 0 <= i < head.len() implies is_digit(#[trigger] head[i]) by {
            assert(head[i] == s[i]);
        }
        lemma_canonical_digits_unique(head);
        assert(is_digit(s.last()));
        if digits_value(head) == 0 {
            assert(digits(0) =~= seq![48u8]);
            assert(head[0] == 48);
        }
        let n = digits_value(s);
        assert(n / 10 == digits_value(head));
        assert(n % 10 == s.last() - 48);
        assert(digits(n) =~= s);
    }
}

/// Reading the canonical text of an integer gives that integer back.
pub proof fn lemma_parse_decimal_of_decimal(v: int)
    ensures
        parse_decimal(decimal(v)) == Some(v),
{
    if v < 0 {
        let n = (-v) as nat;
        lemma_digits_spell(n);
        assert(decimal(v).drop_first() =~= digits(n));
    } else {
        lemma_digits_spell(v as nat);
        assert(is_digit(digits(v as nat)[0]));
    }
}

/// Only the canonical text of an integer reads as that integer.
pub proof fn lemma_parse_decimal_is_canonical(s: Seq<u8>)
    requires
        parse_decimal(s) is Some,
    ensures
        s == decimal(parse_decimal(s)->0),
{
    if s.len() > 0 && s[0] == 45 {
        let magnitude = s.drop_first();
        lemma_canonical_digits_unique(magnitude);
        assert(s =~= seq![45u8] + magnitude);
    } else {
        lemma_canonical_digits_unique(s);
    }
}

/// The digits spelled by a longer run are worth at least as much as those
/// of any of its prefixes.
pub proof fn lemma_digits_value_grows(s: Seq<u8>, k: int)
    requires
        0 <= k <= s.len(),
        forall|i: int| 0 <= i < s.len() ==> is_digit(#[trigger] s[i]),
    ensures
        digits_value(s.take(k)) <= digits_value(s),
    decreases s.len() - k,
{
    if k == s.len() {
        assert(s.take(k) =~= s);
    } else {
        lemma_digits_value_grows(s, k + 1);
        let longer = s.take(k + 1);
        assert(longer.drop_last() =~= s.take(k));
        assert(is_digit(s[k]));
        assert(longer.last() == s[k]);
    }
}

/// The largest magnitude of an `i128`: that of `i128::MIN`.
pub const MAGNITUDE_LIMIT: u128 = 170141183460469231731687303715884105728;

/// The magnitude of `v`.
fn magnitude(v: i128) -> (m: u128)
    ensures
        m == if v < 0 {
            -v
        } else {
            v as int
        },
{
    if v >= 0 {
        v as u128
    } else {
        let below: i128 = -(v + 1);
        below as u128 + 1
    }
}

/// Writes the digits of `n`.
fn write_digits(n: u128) -> (out: Vec<u8>)
    ensures
        out@ == digits(n as nat),
{
    let mut reversed: Vec<u8> = Vec::new();
    let mut rest: u128 = n / 10;
    reversed.push(ZERO + (n % 10) as u8);
    proof {
        if rest == 0 {
            assert(digits(n as nat) =~= reversed@.reverse());
        } else {
            assert(digits(n as nat) =~= digits(rest as nat) + reversed@.reverse());
        }
    }
    while rest > 0
        invariant
            reversed@.len() > 0,
            digits(n as nat) == if rest == 0 {
                reversed@.reverse()
            } else {
                digits(rest as nat) + reversed@.reverse()
            },
        decreases rest,
    {
        let ghost before = reversed@;
        let ghost prior = rest;
        reversed.push(ZERO + (rest % 10) as u8);
        rest = rest / 10;
        proof {
            let last = seq![(48 + prior % 10) as u8];
            assert(reversed@.reverse() =~= last + before.reverse());
            if rest == 0 {
                assert(digits(prior as nat) =~= last);
                assert(digits(n as nat) =~= reversed@.reverse());
            } else {
                assert(digits(prior as nat) =~= digits(rest as nat) + last);
                assert(digits(n as nat) =~= digits(rest as nat) + reversed@.reverse());
            }
        }
    }
    let mut out: Vec<u8> = Vec::new();
    let mut left: usize = reversed.len();
    while left > 0
        invariant
            left <= reversed@.len(),
            out@.len() == reversed@.len() - left,
            forall|j: int| 0 <= j < out@.len() ==> out@[j] == reversed@[reversed@.len() - 1 - j],
        decreases left,
    {
        left = left - 1;
        out.push(reversed[left]);
    }
    assert(out@ =~= reversed@.reverse());
    out
}

/// Writes the canonical decimal text of `v`.
pub fn write_decimal(v: i128) -> (out: Vec<u8>)
    ensures
        out@ == decimal(v as int),
{
    let mut text = write_digits(magnitude(v));
    if v < 0 {
        let mut out: Vec<u8> = Vec::new();
        out.push(MINUS);
        out.append(&mut text);
        out
    } else {
        text
    }
}

/// What [`read_decimal`] returns for the text `s`: the integer that `s` is
/// the canonical decimal text of, where there is one and an `i128` holds it.
pub open spec fn spec_read_decimal(s: Seq<u8>) -> Option<i128> {
    match parse_decimal(s) {
        Some(v) => if i128::MIN <= v <= i128::MAX {
            Some(v as i128)
        } else {
            None
        },
        None => None,
    }
}

/// Reads canonical decimal text.
pub fn read_decimal(text: &[u8]) -> (read: Option<i128>)
    ensures
        read == spec_read_decimal(text@),
{
    let len = text.len();
    if len == 0 {
        return None;
    }
    let negative = text[0] == MINUS;
    let start: usize = if negative {
        1
    } else {
        0
    };
    let ghost run = text@.subrange(start as int, len as int);
    proof {
        if negative {
            assert(run =~= text@.drop_first());
        } else {
            assert(run =~= text@);
        }
    }
    if start == len {
        return None;
    }
    if text[start] == ZERO && len - start > 1 {
        assert(run[0] == 48);
        return None;
    }
    let mut value: u128 = 0;
    let mut i: usize = start;
    while i < len
        invariant
            start <= i <= len,
            len == text@.len(),
            len > 0,
            negative == (text@[0] == 45),
            run == if negative {
                text@.drop_first()
            } else {
                text@
            },
            run.len() == len - start,
            forall|j: int| 0 <= j < i - start ==> is_digit(#[trigger] run[j]),
            value == digits_value(run.take(i - start)),
            value <= MAGNITUDE_LIMIT,
        decreases len - i,
    {
        let byte = text[i];
        assert(run[i - start] == byte);
        if byte < 48 || byte > 57 {
            assert(!is_digit(run[i - start]));
            return None;
        }
        let digit: u128 = (byte - ZERO) as u128;
        proof {
            let longer = run.take(i - start + 1);
            assert(longer.drop_last() =~= run.take(i - start));
            assert(longer.last() == byte);
            assert(digits_value(longer) == value * 10 + digit);
        }
        if value > (MAGNITUDE_LIMIT - digit) / 10 {
            proof {
                if forall|j: int| 0 <= j < run.len() ==> is_digit(#[trigger] run[j]) {
                    lemma_digits_value_grows(run, i - start + 1);
                }
            }
            return None;
        }
        value = value * 10 + digit;
        i = i + 1;
    }
    assert(run.take(len - start) =~= run);
    assert(is_canonical_digits(run));
    if negative {
        if value == 0 {
            None
        } else if value == MAGNITUDE_LIMIT {
            Some(i128::MIN)
        } else {
            Some(-(value as i128))
        }
    } else {
        if value == MAGNITUDE_LIMIT {
            None
        } else {
            Some(value as i128)
        }
    }
}

} // verus!
