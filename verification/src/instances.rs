//! The other running instances of the program: how their process ids are
//! read from a listing, and which of them are to be ended.

use vstd::prelude::*;
use vstd::string::StrSliceExecFns;
use crate::startup::texts;

verus! {

/// Whether `c` is white space, as Unicode lists it: the characters that
/// `char::is_whitespace` answers for.
pub open spec fn is_space(c: char) -> bool {
    let code = c as u32;
    ||| 0x09 <= code <= 0x0D
    ||| code == 0x20
    ||| code == 0x85
    ||| code == 0xA0
    ||| code == 0x1680
    ||| 0x2000 <= code <= 0x200A
    ||| code == 0x2028
    ||| code == 0x2029
    ||| code == 0x202F
    ||| code == 0x205F
    ||| code == 0x3000
}

/// How many characters that are no white space `s` starts with.
pub open spec fn word_length(s: Seq<char>) -> nat
    decreases s.len(),
{
    if s.len() > 0 && !is_space(s[0]) {
        1 + word_length(s.skip(1))
    } else {
        0
    }
}

/// The words of `s`: its longest stretches without white space, in order.
pub open spec fn words(s: Seq<char>) -> Seq<Seq<char>>
    decreases s.len(),
{
    let n = word_length(s) as int;
    if s.len() == 0 {
        Seq::empty()
    } else if n == 0 {
        words(s.skip(1))
    } else if n >= s.len() {
        seq![s]
    } else {
        seq![s.take(n)] + words(s.skip(n))
    }
}

proof fn lemma_word_length(s: Seq<char>, n: int)
    requires
        0 <= n <= s.len(),
        forall|k: int| 0 <= k < n ==> !is_space(#[trigger] s[k]),
        n == s.len() || is_space(s[n]),
    ensures
        word_length(s) == n,
    decreases n,
{
    if n > 0 {
        lemma_word_length(s.skip(1), n - 1);
    }
}

/// Tells white space from the rest.
fn is_white_space(c: char) -> (space: bool)
    ensures
        space == is_space(c),
{
    let code: u32 = c as u32;
    (0x09 <= code && code <= 0x0D) || code == 0x20 || code == 0x85 || code == 0xA0 || code
        == 0x1680 || (0x2000 <= code && code <= 0x200A) || code == 0x2028 || code == 0x2029
        || code == 0x202F || code == 0x205F || code == 0x3000
}

/// Reads the process ids off a listing: its words, in order.
pub fn process_ids(listing: &str) -> (pids: Vec<String>)
    ensures
        texts(pids@) == words(listing@),
{
    let mut pids: Vec<String> = Vec::new();
    let mut start: usize = 0;
    let mut position: usize = 0;
    let length: usize = listing.unicode_len();
    let ghost text = listing@;
    assert(text.skip(0) =~= text);

    for c in it: listing.chars()
        invariant
            it.seq() == text,
            text == listing@,
            position == it.index(),
            start <= position <= text.len() == length,
            forall|k: int| start <= k < position ==> !is_space(#[trigger] text[k]),
            words(text) == texts(pids@) + words(text.skip(start as int)),
    {
        if is_white_space(c) {
            proof {
                let tail = text.skip(start as int);
                let space = text.skip(position as int);
                lemma_word_length(tail, position - start);
                lemma_word_length(space, 0);
                assert(tail.take(position - start) =~= text.subrange(start as int, position as int));
                assert(tail.skip(position - start) =~= space);
                assert(space.skip(1) =~= text.skip(position + 1));
            }
            if start < position {
                pids.push(listing.substring_char(start, position).to_owned());
                assert(words(text.skip(position as int)) == words(text.skip(position + 1)));
            }
            start = position + 1;
        }
        position = position + 1;
    }

    proof {
        lemma_word_length(text.skip(start as int), text.len() - start);
    }
    if start < position {
        pids.push(listing.substring_char(start, position).to_owned());
    }
    pids
}

/// The process ids among `pids` that are not `own`, in their order.
pub open spec fn others(pids: Seq<Seq<char>>, own: Seq<char>) -> Seq<Seq<char>> {
    pids.filter(|pid: Seq<char>| pid != own)
}

/// Picks the instances to end: of the process ids listed, every one but this
/// process's own, in the order of the listing.
pub fn other_instances(pids: &Vec<String>, own: &str) -> (rest: Vec<String>)
    ensures
        texts(rest@) == others(texts(pids@), own@),
{
    let own = own.to_owned();
    let mut rest: Vec<String> = Vec::new();
    let mut index: usize = 0;
    assert(texts(rest@) =~= others(texts(pids@).take(0), own@)) by {
        reveal(Seq::filter);
    }
    while index < pids.len()
        invariant
            index <= pids.len(),
            texts(rest@) == others(texts(pids@).take(index as int), own@),
        decreases pids.len() - index,
    {
        let ghost seen = texts(pids@).take(index as int + 1);
        assert(seen.drop_last() =~= texts(pids@).take(index as int));
        assert(others(seen, own@) == if seen.last() != own@ {
            others(seen.drop_last(), own@).push(seen.last())
        } else {
            others(seen.drop_last(), own@)
        }) by {
            reveal(Seq::filter);
        }
        if !(pids[index] == own) {
            rest.push(pids[index].clone());
        }
        index += 1;
    }
    assert(texts(pids@).take(index as int) =~= texts(pids@));
    rest
}

} // verus!
