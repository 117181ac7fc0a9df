//! The relative grammar said a second way, by the groups that a text is made
//! of, and the proof that the two ways agree.

use vstd::prelude::*;
use crate::duration::{
    decimal_value, duration_value, groups_value, is_digit, leading_digits, lemma_leading_digits,
    no_limit, parse_outcome, unit_factor,
};

verus! {

/// One group of the grammar, as a way to speak of the texts that the grammar
/// admits: the digits of a magnitude and the unit after them.
pub struct Group {
    pub digits: Seq<char>,
    pub unit: char,
}

impl Group {
    /// The group as it is written: the digits, then the unit.
    pub open spec fn text(self) -> Seq<char> {
        self.digits.push(self.unit)
    }

    /// The number that the digits spell.
    pub open spec fn magnitude(self) -> nat {
        decimal_value(self.digits)
    }

    /// The seconds in the group's unit, and zero for a character that is no unit.
    pub open spec fn factor(self) -> nat {
        match unit_factor(self.unit) {
            Some(factor) => factor,
            None => 0,
        }
    }

    /// The seconds that the group stands for.
    pub open spec fn seconds(self) -> nat {
        self.magnitude() * self.factor()
    }

    /// One or more digits with no leading zero, a magnitude that is not zero,
    /// and one of the four units.
    pub open spec fn well_formed(self) -> bool {
        &&& self.digits.len() > 0
        &&& forall|i: int| 0 <= i < self.digits.len() ==> is_digit(#[trigger] self.digits[i])
        &&& (self.digits.len() == 1 || self.digits[0] != '0')
        &&& self.magnitude() > 0
        &&& unit_factor(self.unit) is Some
    }
}

/// The groups written one after another.
pub open spec fn groups_text(groups: Seq<Group>) -> Seq<char>
    decreases groups.len(),
{
    if groups.len() == 0 {
        Seq::empty()
    } else {
        groups[0].text() + groups_text(groups.skip(1))
    }
}

/// The sum of what the groups stand for.
pub open spec fn groups_seconds(groups: Seq<Group>) -> nat
    decreases groups.len(),
{
    if groups.len() == 0 {
        0
    } else {
        groups[0].seconds() + groups_seconds(groups.skip(1))
    }
}

/// Each group's unit is smaller than the unit of every group before it.
pub open spec fn units_decrease(groups: Seq<Group>) -> bool {
    forall|i: int, j: int|
        0 <= i < j < groups.len() ==> (#[trigger] groups[i]).factor() > (#[trigger] groups[j]).factor()
}

/// At least one group, every group well formed, and the units strictly decreasing.
pub open spec fn valid_groups(groups: Seq<Group>) -> bool {
    &&& groups.len() > 0
    &&& forall|i: int| 0 <= i < groups.len() ==> (#[trigger] groups[i]).well_formed()
    &&& units_decrease(groups)
}

/// The groups that `s` begins with, read from the left for as long as digits
/// are followed by one more character.
pub open spec fn groups_of(s: Seq<char>) -> Seq<Group>
    decreases s.len(),
{
    let n = leading_digits(s) as int;
    if s.len() == 0 || n == 0 || n >= s.len() {
        Seq::empty()
    } else {
        seq![Group { digits: s.take(n), unit: s[n] }] + groups_of(s.skip(n + 1))
    }
}

proof fn lemma_groups_value_of(groups: Seq<Group>, limit: nat)
    requires
        forall|i: int| 0 <= i < groups.len() ==> (#[trigger] groups[i]).well_formed(),
        units_decrease(groups),
        groups.len() > 0 ==> groups[0].factor() < limit,
    ensures
        groups_value(groups_text(groups), limit) == Some(groups_seconds(groups)),
    decreases groups.len(),
{
    if groups.len() > 0 {
        let first = groups[0];
        let rest = groups.skip(1);
        let text = groups_text(groups);
        let n = first.digits.len() as int;
        lemma_groups_value_of(rest, first.factor());
        lemma_leading_digits(text, n);
        assert(text.take(n) =~= first.digits);
        assert(text.skip(n + 1) =~= groups_text(rest));
    }
}

/// Every text that is made of well-formed groups, with their units in
/// strictly decreasing order, parses to the sum of each magnitude times the
/// seconds in its unit; [`parse_duration`] returns that sum wherever it fits
/// in 64 bits.
pub proof fn lemma_valid_groups_parse(groups: Seq<Group>)
    requires
        valid_groups(groups),
    ensures
        duration_value(groups_text(groups)) == Some(groups_seconds(groups)),
        groups_seconds(groups) <= u64::MAX ==> {
            parse_outcome(groups_text(groups)) == Ok::<u64, ()>(groups_seconds(groups) as u64)
        },
{
    lemma_groups_value_of(groups, no_limit());
}

proof fn lemma_leading_are_digits(s: Seq<char>, k: int)
    requires
        0 <= k < leading_digits(s),
    ensures
        k < s.len(),
        is_digit(s[k]),
    decreases k,
{
    if k > 0 {
        lemma_leading_are_digits(s.skip(1), k - 1);
    }
}

proof fn lemma_groups_of(s: Seq<char>, limit: nat)
    requires
        groups_value(s, limit) is Some,
    ensures
        forall|i: int| 0 <= i < groups_of(s).len() ==> (#[trigger] groups_of(s)[i]).well_formed(),
        forall|i: int| 0 <= i < groups_of(s).len() ==> (#[trigger] groups_of(s)[i]).factor() < limit,
        units_decrease(groups_of(s)),
        groups_text(groups_of(s)) == s,
        groups_seconds(groups_of(s)) == groups_value(s, limit).unwrap(),
        s.len() > 0 ==> groups_of(s).len() > 0,
    decreases s.len(),
{
    if s.len() > 0 {
        let n = leading_digits(s) as int;
        let first = Group { digits: s.take(n), unit: s[n] };
        let tail = s.skip(n + 1);
        lemma_groups_of(tail, first.factor());
        assert(groups_of(s).skip(1) =~= groups_of(tail));
        assert(first.well_formed()) by {
            assert forall|i: int| 0 <= i < first.digits.len() implies is_digit(
                #[trigger] first.digits[i],
            ) by {
                lemma_leading_are_digits(s, i);
            }
        }
    }
}

/// Conversely, every text that parses is made of well-formed groups with
/// their units in strictly decreasing order, and parses to their sum. With
/// [`lemma_valid_groups_parse`] this says that the texts of the grammar are
/// those of valid groups, and no others.
pub proof fn lemma_parsed_text_is_valid_groups(s: Seq<char>)
    requires
        duration_value(s) is Some,
    ensures
        valid_groups(groups_of(s)),
        groups_text(groups_of(s)) == s,
        groups_seconds(groups_of(s)) == duration_value(s).unwrap(),
{
    lemma_groups_of(s, no_limit());
}

/// A character that is neither a digit nor a unit has no place in a run.
pub proof fn lemma_stray_character(s: Seq<char>, i: int, limit: nat)
    requires
        0 <= i < s.len(),
        !is_digit(s[i]),
        unit_factor(s[i]) is None,
    ensures
        groups_value(s, limit) is None,
    decreases s.len(),
{
    let n = leading_digits(s) as int;
    if 0 < n < s.len() {
        if i < n {
            lemma_leading_are_digits(s, i);
        } else if i > n {
            if let Some(factor) = unit_factor(s[n]) {
                lemma_stray_character(s.skip(n + 1), i - n - 1, factor);
            }
        }
    }
}

} // verus!
