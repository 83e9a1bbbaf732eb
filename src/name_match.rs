//! Ranking of how well a name matches a target text: exact, contained, containing, first as
//! written, then ignoring case. Zero means no match.
use vstd::prelude::*;
use crate::output::{lower_of, lowercase, same_text};

verus! {

/// Whether `needle` occurs in `hay` as a contiguous run.
pub open spec fn occurs_in(needle: Seq<char>, hay: Seq<char>) -> bool {
    exists|i: int|
        0 <= i && i + needle.len() <= hay.len() && #[trigger] hay.subrange(i, i + needle.len())
            == needle
}

/// Degree of match of `name` against `target`, given both texts and their lower-cased forms.
pub open spec fn match_degree(
    name: Seq<char>,
    target: Seq<char>,
    lname: Seq<char>,
    ltarget: Seq<char>,
) -> usize {
    if name == target {
        6
    } else if occurs_in(name, target) {
        4
    } else if occurs_in(target, name) {
        2
    } else if lname == ltarget {
        5
    } else if occurs_in(lname, ltarget) {
        3
    } else if occurs_in(ltarget, lname) {
        1
    } else {
        0
    }
}

/// Degree of match when only containment of the name in the target counts.
pub open spec fn contained_degree(
    name: Seq<char>,
    target: Seq<char>,
    lname: Seq<char>,
    ltarget: Seq<char>,
) -> usize {
    if name == target {
        4
    } else if occurs_in(name, target) {
        2
    } else if lname == ltarget {
        3
    } else if occurs_in(lname, ltarget) {
        1
    } else {
        0
    }
}

fn window_equals(hay: &str, hn: usize, i: usize, needle: &str, nn: usize) -> (r: bool)
    requires
        hn == hay@.len(),
        nn == needle@.len(),
        i + nn <= hn,
    ensures
        r == (hay@.subrange(i as int, i + nn) == needle@),
{
    let mut k: usize = 0;
    while k < nn
        invariant
            hn == hay@.len(),
            nn == needle@.len(),
            i + nn <= hn,
            k <= nn,
            hay@.subrange(i as int, i + k) == needle@.subrange(0, k as int),
        decreases nn - k,
    {
        if hay.get_char(i + k) != needle.get_char(k) {
            assert(hay@.subrange(i as int, i + nn)[k as int] != needle@[k as int]);
            return false;
        }
        assert(hay@.subrange(i as int, i + k + 1) =~= hay@.subrange(i as int, i + k).push(
            hay@[i + k],
        ));
        assert(needle@.subrange(0, k + 1) =~= needle@.subrange(0, k as int).push(needle@[k as int]));
        k = k + 1;
    }
    assert(needle@.subrange(0, nn as int) =~= needle@);
    true
}

/// Whether `needle` occurs in `hay`.
pub fn contains(hay: &str, needle: &str) -> (r: bool)
    ensures
        r == occurs_in(needle@, hay@),
{
    let hn = hay.unicode_len();
    let nn = needle.unicode_len();
    if nn > hn {
        return false;
    }
    let mut i: usize = 0;
    while i < hn - nn
        invariant
            hn == hay@.len(),
            nn == needle@.len(),
            nn <= hn,
            i <= hn - nn,
            forall|j: int| 0 <= j < i ==> #[trigger] hay@.subrange(j, j + nn) != needle@,
        decreases hn - nn - i,
    {
        if window_equals(hay, hn, i, needle, nn) {
            return true;
        }
        i = i + 1;
    }
    window_equals(hay, hn, i, needle, nn)
}

/// Degree of match, given the lower-cased forms of both texts.
pub fn name_match_lowered(name: &str, target: &str, lname: &str, ltarget: &str) -> (r: usize)
    ensures
        r == match_degree(name@, target@, lname@, ltarget@),
{
    if same_text(name, target) {
        6
    } else if contains(target, name) {
        4
    } else if contains(name, target) {
        2
    } else if same_text(lname, ltarget) {
        5
    } else if contains(ltarget, lname) {
        3
    } else if contains(lname, ltarget) {
        1
    } else {
        0
    }
}

/// Degree of match of a name against a target: 6 equal, 4 contained, 2 containing; 5, 3, 1
/// the same ignoring case; 0 no match.
pub fn name_match(name: &str, target: &str) -> (r: usize)
    ensures
        r == match_degree(name@, target@, lower_of(name@), lower_of(target@)),
{
    let lname = lowercase(name);
    let ltarget = lowercase(target);
    name_match_lowered(name, target, lname.as_str(), ltarget.as_str())
}

/// Degree of containment, given the lower-cased forms of both texts.
pub fn name_match_only_contains_lowered(name: &str, target: &str, lname: &str, ltarget: &str) -> (r:
    usize)
    ensures
        r == contained_degree(name@, target@, lname@, ltarget@),
{
    if same_text(name, target) {
        4
    } else if contains(target, name) {
        2
    } else if same_text(lname, ltarget) {
        3
    } else if contains(ltarget, lname) {
        1
    } else {
        0
    }
}

/// Degree of containment of a name in a target: 4 equal, 2 contained; 3, 1 the same ignoring
/// case; 0 no match.
pub fn name_match_only_contains(name: &str, target: &str) -> (r: usize)
    ensures
        r == contained_degree(name@, target@, lower_of(name@), lower_of(target@)),
{
    let lname = lowercase(name);
    let ltarget = lowercase(target);
    name_match_only_contains_lowered(name, target, lname.as_str(), ltarget.as_str())
}

/// Whether a name matches a target to any degree.
pub fn is_name_match(name: &str, target: &str) -> (r: bool)
    ensures
        r == (match_degree(name@, target@, lower_of(name@), lower_of(target@)) > 0),
{
    name_match(name, target) > 0
}

} // verus!
