//! The `--status` option: keywords for groups of statuses, or a list.
use vstd::prelude::*;
use crate::text::{chars_of, split, split_commas};

verus! {

/// `c` is the lower-case ASCII letter `lower`, in either case.
pub open spec fn same_letter(c: char, lower: char) -> bool {
    (c as u32) == (lower as u32) || (c as u32) + 32 == (lower as u32)
}

/// `s` spells the lower-case ASCII word `word`, ignoring ASCII case.
pub open spec fn spells(s: Seq<char>, word: Seq<char>) -> bool {
    s.len() == word.len() && forall|i: int| 0 <= i < s.len() ==> same_letter(s[i], word[i])
}

pub open spec fn word_open() -> Seq<char> {
    seq!['o', 'p', 'e', 'n']
}

pub open spec fn word_closed() -> Seq<char> {
    seq!['c', 'l', 'o', 's', 'e', 'd']
}

pub open spec fn word_all() -> Seq<char> {
    seq!['a', 'l', 'l']
}

/// The statuses that the `open` keyword stands for.
pub open spec fn open_statuses() -> Seq<Seq<char>> {
    seq!["NEW"@, "ASSIGNED"@, "REOPENED"@, "UNCONFIRMED"@]
}

/// The statuses that the `closed` keyword stands for.
pub open spec fn closed_statuses() -> Seq<Seq<char>> {
    seq!["RESOLVED"@, "VERIFIED"@, "CLOSED"@]
}

/// The statuses that a `--status` value selects: `open`, `closed` and `all`
/// (in any case) stand for fixed lists (`all` for none, that is, no filter);
/// anything else is a comma-separated list taken as written.
///
/// The keywords are compared after lower-casing the value; since no
/// character outside ASCII lower-cases to a letter of these keywords, that
/// is the same as comparing ignoring ASCII case.
pub open spec fn status_list(s: Seq<char>) -> Seq<Seq<char>> {
    if spells(s, word_open()) {
        open_statuses()
    } else if spells(s, word_closed()) {
        closed_statuses()
    } else if spells(s, word_all()) {
        seq![]
    } else {
        split(s, ',')
    }
}

fn letter_matches(c: char, lower: char) -> (b: bool)
    requires
        'a' <= lower <= 'z',
    ensures
        b == same_letter(c, lower),
{
    (c as u32) == (lower as u32) || (c as u32) + 32 == (lower as u32)
}

fn spells_word(cs: &Vec<char>, word: &Vec<char>) -> (b: bool)
    requires
        forall|i: int| 0 <= i < word.len() ==> 'a' <= #[trigger] word@[i] <= 'z',
    ensures
        b == spells(cs@, word@),
{
    if cs.len() != word.len() {
        return false;
    }
    let n = cs.len();
    for i in 0..n
        invariant
            n == cs.len(),
            n == word.len(),
            forall|i: int| 0 <= i < word.len() ==> 'a' <= #[trigger] word@[i] <= 'z',
            forall|j: int| 0 <= j < i ==> same_letter(cs@[j], word@[j]),
    {
        if !letter_matches(cs[i], word[i]) {
            return false;
        }
    }
    true
}

/// The statuses that a `--status` value selects (see `status_list`).
pub fn status_to_list(s: &str) -> (r: Vec<&str>)
    ensures
        r@.map_values(|p: &str| p@) == status_list(s@),
{
    let cs = chars_of(s);
    let open_word = vec!['o', 'p', 'e', 'n'];
    let closed_word = vec!['c', 'l', 'o', 's', 'e', 'd'];
    let all_word = vec!['a', 'l', 'l'];
    assert(open_word@ == word_open());
    assert(closed_word@ == word_closed());
    assert(all_word@ == word_all());
    if spells_word(&cs, &open_word) {
        let r = vec!["NEW", "ASSIGNED", "REOPENED", "UNCONFIRMED"];
        assert(r@.map_values(|p: &str| p@) =~= open_statuses());
        r
    } else if spells_word(&cs, &closed_word) {
        let r = vec!["RESOLVED", "VERIFIED", "CLOSED"];
        assert(r@.map_values(|p: &str| p@) =~= closed_statuses());
        r
    } else if spells_word(&cs, &all_word) {
        let r: Vec<&str> = Vec::new();
        assert(r@.map_values(|p: &str| p@) =~= Seq::<Seq<char>>::empty());
        r
    } else {
        split_commas(s)
    }
}

} // verus!
