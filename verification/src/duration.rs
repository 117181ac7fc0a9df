//! The relative duration grammar: `<digits><unit>` groups such as `12h30m`,
//! written one after another with larger units first.

use vstd::prelude::*;

verus! {

/// For how long a run holds its assertions.
#[derive(Clone, Copy, Debug, PartialEq, Eq, Structural)]
pub enum DurationSpec {
    /// Until an interrupt ends the run.
    Unbounded,
    /// For this many seconds, counted from the moment the argument was read.
    Seconds(u64),
}

/// Seconds in one unit of the grammar, by the unit's suffix character.
pub open spec fn unit_factor(c: char) -> Option<nat> {
    if c == 'd' {
        Some(86_400)
    } else if c == 'h' {
        Some(3_600)
    } else if c == 'm' {
        Some(60)
    } else if c == 's' {
        Some(1)
    } else {
        None
    }
}

/// A bound above every unit's factor: the limit in force before the first group.
pub const NO_LIMIT: u64 = 86_401;

/// The limit in force before the first group.
pub open spec fn no_limit() -> nat {
    NO_LIMIT as nat
}

/// Whether `c` is one of `0` to `9`.
pub open spec fn is_digit(c: char) -> bool {
    '0' <= c && c <= '9'
}

/// The number that the digit `c` stands for.
pub open spec fn digit_value(c: char) -> nat {
    (c as u32 - '0' as u32) as nat
}

/// How many digits `s` starts with.
pub open spec fn leading_digits(s: Seq<char>) -> nat
    decreases s.len(),
{
    if s.len() > 0 && is_digit(s[0]) {
        1 + leading_digits(s.skip(1))
    } else {
        0
    }
}

/// The number that a string of digits writes in base ten.
pub open spec fn decimal_value(digits: Seq<char>) -> nat
    decreases digits.len(),
{
    if digits.len() == 0 {
        0
    } else {
        10 * decimal_value(digits.drop_last()) + digit_value(digits.last())
    }
}

/// The seconds that `s` spells as a run of groups whose units all have a
/// factor below `limit`, or `None` where `s` is no such run.
///
/// The empty string is the empty run. Otherwise `s` starts with a group: one
/// or more digits, then a unit. The digits have no leading zero and do not
/// spell zero, the unit's factor is below `limit`, and what follows the group
/// is a run below that factor.
pub open spec fn groups_value(s: Seq<char>, limit: nat) -> Option<nat>
    decreases s.len(),
{
    let n = leading_digits(s) as int;
    if s.len() == 0 {
        Some(0)
    } else if n == 0 {
        // a unit, or a stray character, with no digits before it
        None
    } else if n >= s.len() {
        // digits with no unit after them
        None
    } else if n > 1 && s[0] == '0' {
        // a leading zero
        None
    } else if decimal_value(s.take(n)) == 0 {
        // a magnitude of zero
        None
    } else {
        match unit_factor(s[n]) {
            None => None,
            Some(factor) => if factor >= limit {
                // a unit repeated or out of order
                None
            } else {
                match groups_value(s.skip(n + 1), factor) {
                    None => None,
                    Some(rest) => Some(decimal_value(s.take(n)) * factor + rest),
                }
            },
        }
    }
}

/// The seconds that a relative duration spells: a run of at least one group.
pub open spec fn duration_value(s: Seq<char>) -> Option<nat> {
    if s.len() == 0 {
        None
    } else {
        groups_value(s, no_limit())
    }
}

/// What [`parse_duration`] returns for the text `s`: the seconds it spells
/// where they fit in 64 bits, an error otherwise.
pub open spec fn parse_outcome(s: Seq<char>) -> Result<u64, ()> {
    match duration_value(s) {
        Some(seconds) => if seconds <= u64::MAX {
            Ok(seconds as u64)
        } else {
            Err(())
        },
        None => Err(()),
    }
}

/// `base` added to a run's value.
spec fn offset_by(base: nat, value: Option<nat>) -> Option<nat> {
    match value {
        Some(v) => Some(base + v),
        None => None,
    }
}

pub(crate) proof fn lemma_leading_digits(s: Seq<char>, n: int)
    requires
        0 <= n <= s.len(),
        forall|k: int| 0 <= k < n ==> is_digit(#[trigger] s[k]),
    ensures
        leading_digits(s) >= n,
        (n == s.len() || !is_digit(s[n])) ==> leading_digits(s) == n,
    decreases n,
{
    if n > 0 {
        lemma_leading_digits(s.skip(1), n - 1);
    }
}

proof fn lemma_decimal_prefix(digits: Seq<char>, k: int)
    requires
        0 <= k <= digits.len(),
    ensures
        decimal_value(digits.take(k)) <= decimal_value(digits),
    decreases digits.len(),
{
    if k == digits.len() {
        assert(digits.take(k) =~= digits);
    } else {
        lemma_decimal_prefix(digits.drop_last(), k);
        assert(digits.drop_last().take(k) =~= digits.take(k));
    }
}

proof fn lemma_decimal_single(digits: Seq<char>)
    requires
        digits.len() == 1,
    ensures
        decimal_value(digits) == digit_value(digits[0]),
{
    assert(decimal_value(digits.drop_last()) == 0);
}

proof fn lemma_decimal_positive(digits: Seq<char>)
    requires
        digits.len() > 0,
        is_digit(digits[0]),
        digits[0] != '0',
    ensures
        decimal_value(digits) > 0,
    decreases digits.len(),
{
    if digits.len() == 1 {
        lemma_decimal_single(digits);
    } else {
        lemma_decimal_positive(digits.drop_last());
    }
}

/// A run that starts with `k` digits is worth at least what they spell.
proof fn lemma_group_at_least(s: Seq<char>, k: int, limit: nat)
    requires
        0 <= k <= s.len(),
        forall|i: int| 0 <= i < k ==> is_digit(#[trigger] s[i]),
    ensures
        groups_value(s, limit) matches Some(v) ==> v >= decimal_value(s.take(k)),
{
    lemma_leading_digits(s, k);
    if groups_value(s, limit) is Some && s.len() > 0 {
        let n = leading_digits(s) as int;
        let digits = s.take(n);
        let factor = unit_factor(s[n]).unwrap();
        lemma_decimal_prefix(digits, k);
        assert(digits.take(k) =~= s.take(k));
        assert(decimal_value(digits) * factor >= decimal_value(digits)) by (nonlinear_arith)
            requires
                factor >= 1,
        ;
    }
}

/// The seconds in the unit `c`, if it is one.
fn factor_of(c: char) -> (factor: Option<u64>)
    ensures
        match factor {
            Some(seconds) => unit_factor(c) == Some(seconds as nat),
            None => unit_factor(c) is None,
        },
{
    if c == 'd' {
        Some(86_400)
    } else if c == 'h' {
        Some(3_600)
    } else if c == 'm' {
        Some(60)
    } else if c == 's' {
        Some(1)
    } else {
        None
    }
}

/// Parses a relative duration into seconds.
///
/// The text is a run of one or more groups, each a decimal magnitude followed
/// by one of the units `d`, `h`, `m` and `s`. A magnitude has no leading zero
/// and is not zero, and each unit is smaller than the one before it. The
/// result is the sum of the magnitudes, each times the seconds in its unit.
/// Anything else is an error, and so is a sum that does not fit in 64 bits.
pub fn parse_duration(input: &str) -> (r: Result<u64, ()>)
    ensures
        r == parse_outcome(input@),
{
    if input.is_empty() {
        return Err(());
    }
    let mut seconds: u64 = 0;
    let mut number: u64 = 0;
    let mut has_digits = false;
    let mut starts_with_zero = false;
    let mut limit: u64 = NO_LIMIT;
    let ghost text = input@;
    let ghost start: int = 0;
    assert(text.skip(0) =~= text);

    for c in it: input.chars()
        invariant
            it.seq() == text,
            text == input@,
            0 <= start <= it.index() <= text.len(),
            forall|k: int| start <= k < it.index() ==> is_digit(#[trigger] text[k]),
            has_digits == (start < it.index()),
            has_digits ==> starts_with_zero == (text[start] == '0'),
            number == decimal_value(text.subrange(start, it.index() as int)),
            limit <= no_limit(),
            groups_value(text, no_limit()) == offset_by(
                seconds as nat,
                groups_value(text.skip(start), limit as nat),
            ),
    {
        let ghost pos = it.index() as int;
        let ghost tail = text.skip(start);
        if c >= '0' && c <= '9' {
            let digit: u64 = (c as u32 - '0' as u32) as u64;
            proof {
                let run = text.subrange(start, pos + 1);
                assert(run.drop_last() =~= text.subrange(start, pos));
                lemma_group_at_least(tail, pos + 1 - start, limit as nat);
                assert(tail.take(pos + 1 - start) =~= run);
            }
            let widened = match number.checked_mul(10) {
                Some(tens) => tens.checked_add(digit),
                None => None,
            };
            match widened {
                Some(value) => {
                    if !has_digits {
                        starts_with_zero = c == '0';
                    }
                    number = value;
                    has_digits = true;
                },
                None => return Err(()),
            }
        } else {
            proof {
                lemma_leading_digits(tail, pos - start);
                assert(tail.take(pos - start) =~= text.subrange(start, pos));
                assert(tail.skip(pos - start + 1) =~= text.skip(pos + 1));
                if has_digits && !starts_with_zero {
                    lemma_decimal_positive(tail.take(pos - start));
                }
                if has_digits && starts_with_zero && pos - start == 1 {
                    lemma_decimal_single(tail.take(1));
                }
            }
            if !has_digits || starts_with_zero {
                return Err(());
            }
            let factor: u64 = match factor_of(c) {
                Some(factor) => factor,
                None => return Err(()),
            };
            if factor >= limit {
                return Err(());
            }
            let total = match number.checked_mul(factor) {
                Some(product) => seconds.checked_add(product),
                None => None,
            };
            match total {
                Some(sum) => seconds = sum,
                None => return Err(()),
            }
            limit = factor;
            number = 0;
            has_digits = false;
            proof {
                start = pos + 1;
            }
        }
    }

    if has_digits {
        proof {
            lemma_leading_digits(text.skip(start), text.len() - start);
        }
        return Err(());
    }
    Ok(seconds)
}

} // verus!
