//! Table cells of the terminal reports.
use crate::text::{
    chars_of, char_utf8_width, concat2, lemma_utf8_len_concat, lemma_utf8_len_take, owned, string_of_range, utf8_len,
    utf8_width,
};
use vstd::prelude::*;

verus! {

/// How many bytes of a long path stay after the ellipsis: three fewer than
/// the width, or none.
pub open spec fn kept_bytes(max_len: usize) -> int {
    if max_len >= 3 {
        max_len - 3
    } else {
        0
    }
}

/// Whether `k` characters of `path` take exactly `bytes` bytes.
pub open spec fn cut_at(path: Seq<char>, k: int, bytes: int) -> bool {
    0 <= k <= path.len() && utf8_len(path.take(k)) == bytes
}

/// Longer prefixes take more bytes.
proof fn lemma_utf8_take_strictly_grows(s: Seq<char>, i: int, j: int)
    requires
        0 <= i < j <= s.len(),
    ensures
        utf8_len(s.take(i)) < utf8_len(s.take(j)),
    decreases j - i,
{
    lemma_utf8_len_take(s, j - 1);
    if i < j - 1 {
        lemma_utf8_take_strictly_grows(s, i, j - 1);
    }
}

/// Truncates a long path for a table cell of `max_len` bytes: a path that
/// fits stays; a longer one keeps its last `max_len - 3` bytes behind `...`.
pub fn truncate_path(path: &str, max_len: usize) -> (r: String)
    requires
        utf8_len(path@) <= usize::MAX,
        utf8_len(path@) > max_len ==> exists|k: int|
            #[trigger] cut_at(path@, k, utf8_len(path@) - kept_bytes(max_len)),
    ensures
        utf8_len(path@) <= max_len ==> r@ == path@,
        utf8_len(path@) > max_len ==> exists|k: int|
            #[trigger] cut_at(path@, k, utf8_len(path@) - kept_bytes(max_len)) && r@ == "..."@
                + path@.skip(k),
        utf8_len(path@) > max_len ==> utf8_len(r@) == 3 + kept_bytes(max_len),
{
    let v = chars_of(path);
    let mut total: usize = 0;
    let mut i: usize = 0;
    while i < v.len()
        invariant
            i <= v.len(),
            v@ == path@,
            utf8_len(path@) <= usize::MAX,
            total == utf8_len(path@.take(i as int)),
        decreases v.len() - i,
    {
        proof {
            lemma_utf8_len_take(path@, i as int);
            if i + 1 < v.len() {
                lemma_utf8_take_strictly_grows(path@, i + 1, v.len() as int);
            }
            assert(path@.take(v.len() as int) =~= path@);
        }
        total = total + char_utf8_width(v[i]);
        i = i + 1;
    }
    assert(path@.take(v.len() as int) =~= path@);
    if total <= max_len {
        return owned(path);
    }
    let suffix_len: usize = if max_len >= 3 {
        max_len - 3
    } else {
        0
    };
    let cut: usize = total - suffix_len;
    let ghost k0 = choose|k: int| cut_at(path@, k, cut as int);
    let mut k: usize = 0;
    let mut acc: usize = 0;
    while acc < cut
        invariant
            k <= v.len(),
            v@ == path@,
            cut_at(path@, k0, cut as int),
            acc == utf8_len(path@.take(k as int)),
            acc <= cut,
        decreases cut - acc,
    {
        proof {
            if k >= k0 {
                if k > k0 {
                    lemma_utf8_take_strictly_grows(path@, k0, k as int);
                }
                assert(false);
            }
            lemma_utf8_len_take(path@, k as int);
            if k + 1 < k0 {
                lemma_utf8_take_strictly_grows(path@, k + 1, k0);
            }
        }
        acc = acc + char_utf8_width(v[k]);
        k = k + 1;
    }
    let tail = string_of_range(&v, k, v.len());
    assert(tail@ =~= path@.skip(k as int));
    assert(cut_at(path@, k as int, cut as int));
    proof {
        assert(path@ =~= path@.take(k as int) + path@.skip(k as int));
        lemma_utf8_len_concat(path@.take(k as int), path@.skip(k as int));
        lemma_utf8_len_concat("..."@, path@.skip(k as int));
        reveal_strlit("...");
        assert(utf8_len("..."@) == 3) by {
            let d = "..."@;
            assert(d.len() == 3);
            assert(d.drop_last().len() == 2);
            assert(utf8_len(d.drop_last().drop_last().drop_last()) == 0);
            assert(utf8_len(d.drop_last().drop_last()) == 1);
            assert(utf8_len(d.drop_last()) == 2);
        }
    }
    concat2("...", tail.as_str())
}

} // verus!
