//! Reading sizes from text: the size token that `journalctl --disk-usage`
//! prints, and the number and unit parts of a human size such as `52.4M`.
//! The number itself is a decimal fraction, read by the caller.
use crate::text::{
    chars_of, find_chars, find_seq, first_word, first_word_from, occurs_at, string_of_range,
    to_uppercase_string, trim_bounds, trim_seq, unicode_uppercase,
};
use vstd::prelude::*;

verus! {

/// The words that introduce the size in `journalctl --disk-usage` output.
pub open spec fn take_up_marker() -> Seq<char> {
    "take up "@
}

/// The size token of `journalctl --disk-usage` output: the first word after
/// the first `take up `.
pub open spec fn journal_size_word(out: Seq<char>) -> Option<Seq<char>> {
    match find_seq(out, take_up_marker()) {
        Some(k) => first_word(out.skip(k + take_up_marker().len())),
        None => None,
    }
}

/// The size token of `journalctl --disk-usage` output (such as `52.4M` in
/// "Archived and active journals take up 52.4M in the file system."): the
/// first word after the first `take up `, or none where there is no such
/// word.
pub fn journal_size_token(output: &str) -> (r: Option<String>)
    ensures
        match r {
            Some(w) => journal_size_word(output@) == Some(w@),
            None => journal_size_word(output@) is None,
        },
{
    let v = chars_of(output);
    let marker = chars_of("take up ");
    match find_chars(&v, &marker) {
        Some(k) => {
            assert(occurs_at(v@, marker@, k as int));
            assert(k + marker.len() <= v.len());
            first_word_from(&v, k + marker.len())
        },
        None => None,
    }
}

/// Whether `c` may stand in the number part of a human size.
pub open spec fn is_number_char(c: char) -> bool {
    ('0' <= c && c <= '9') || c == '.'
}

/// Whether `k` is the position of the first character of `t` that cannot
/// stand in a number.
pub open spec fn number_ends_at(t: Seq<char>, k: int) -> bool {
    &&& 0 <= k < t.len()
    &&& !is_number_char(t[k])
    &&& forall|j: int| 0 <= j < k ==> is_number_char(#[trigger] t[j])
}

/// Splits a human size such as `52.4M` (after trimming) into its number part
/// and its unit part at the first character that is neither a digit nor a
/// dot; none where there is no such character.
pub fn split_size_token(s: &str) -> (r: Option<(String, String)>)
    ensures
        match r {
            Some((num, unit)) => number_ends_at(trim_seq(s@), num@.len() as int) && num@ == trim_seq(
                s@,
            ).take(num@.len() as int) && unit@ == trim_seq(s@).skip(num@.len() as int),
            None => forall|j: int|
                0 <= j < trim_seq(s@).len() ==> is_number_char(#[trigger] trim_seq(s@)[j]),
        },
{
    let v = chars_of(s);
    let (lo, hi) = trim_bounds(&v);
    let ghost t = trim_seq(s@);
    let mut k: usize = lo;
    while k < hi
        invariant
            lo <= k <= hi <= v.len(),
            t == v@.subrange(lo as int, hi as int),
            t == trim_seq(s@),
            forall|j: int| 0 <= j < k - lo ==> is_number_char(#[trigger] t[j]),
        decreases hi - k,
    {
        let c = v[k];
        if !(('0' <= c && c <= '9') || c == '.') {
            let num = string_of_range(&v, lo, k);
            let unit = string_of_range(&v, k, hi);
            assert(num@ =~= t.take(k - lo));
            assert(unit@ =~= t.skip(k - lo));
            assert(t[k - lo] == c);
            assert(num@.len() == k - lo);
            assert(number_ends_at(t, k - lo));
            return Some((num, unit));
        }
        assert(t[k - lo] == c);
        k = k + 1;
    }
    None
}

/// How many times a unit multiplies by 1024: one for kilo, two for mega,
/// three for giga, four for tera, going by the first character of the
/// upper-cased unit; none for anything else.
pub open spec fn unit_power(upper: Seq<char>) -> u32 {
    if upper.len() > 0 && upper[0] == 'K' {
        1
    } else if upper.len() > 0 && upper[0] == 'M' {
        2
    } else if upper.len() > 0 && upper[0] == 'G' {
        3
    } else if upper.len() > 0 && upper[0] == 'T' {
        4
    } else {
        0
    }
}

/// How many times the unit of a human size multiplies by 1024 (`K`, `M`,
/// `G`, `T` in either case; anything else counts bytes).
pub fn size_unit_power(unit: &str) -> (p: u32)
    ensures
        p == unit_power(unicode_uppercase(unit@)),
        p <= 4,
{
    let upper = to_uppercase_string(unit);
    let u = chars_of(upper.as_str());
    if u.len() == 0 {
        0
    } else if u[0] == 'K' {
        1
    } else if u[0] == 'M' {
        2
    } else if u[0] == 'G' {
        3
    } else if u[0] == 'T' {
        4
    } else {
        0
    }
}

} // verus!
