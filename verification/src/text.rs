//! Character-level text handling shared by the parsers of the library:
//! Unicode whitespace, trimming, line splitting, substring search and
//! string building.
use vstd::prelude::*;

verus! {

/// The characters that carry the Unicode `White_Space` property, which is
/// what `char::is_whitespace` and `str::trim` go by.
pub open spec fn is_white_space(c: char) -> bool {
    ||| ('\u{9}' <= c && c <= '\u{d}')
    ||| c == ' '
    ||| c == '\u{85}'
    ||| c == '\u{a0}'
    ||| c == '\u{1680}'
    ||| ('\u{2000}' <= c && c <= '\u{200a}')
    ||| c == '\u{2028}'
    ||| c == '\u{2029}'
    ||| c == '\u{202f}'
    ||| c == '\u{205f}'
    ||| c == '\u{3000}'
}

/// `s` without its leading whitespace.
pub open spec fn trim_start_seq(s: Seq<char>) -> Seq<char>
    decreases s.len(),
{
    if s.len() > 0 && is_white_space(s[0]) {
        trim_start_seq(s.drop_first())
    } else {
        s
    }
}

/// `s` without its trailing whitespace.
pub open spec fn trim_end_seq(s: Seq<char>) -> Seq<char>
    decreases s.len(),
{
    if s.len() > 0 && is_white_space(s.last()) {
        trim_end_seq(s.drop_last())
    } else {
        s
    }
}

/// `s` without leading and trailing whitespace, as `str::trim` gives it.
pub open spec fn trim_seq(s: Seq<char>) -> Seq<char> {
    trim_end_seq(trim_start_seq(s))
}

/// The ASCII lower-case form of one character; other characters stay.
pub open spec fn ascii_lower(c: char) -> char {
    if 'A' <= c && c <= 'Z' {
        ((c as u32) + 32) as char
    } else {
        c
    }
}

/// Whether two character sequences are equal when ASCII letters are compared
/// without regard to case, as `str::eq_ignore_ascii_case` compares them.
pub open spec fn eq_ignore_ascii_case_seq(a: Seq<char>, b: Seq<char>) -> bool {
    &&& a.len() == b.len()
    &&& forall|i: int| 0 <= i < a.len() ==> #[trigger] ascii_lower(a[i]) == ascii_lower(b[i])
}

/// Whether `s` ends with `suffix`.
pub open spec fn ends_with_seq(s: Seq<char>, suffix: Seq<char>) -> bool {
    suffix.len() <= s.len() && s.subrange(s.len() - suffix.len(), s.len() as int) == suffix
}

/// Whether `s` begins with `prefix`.
pub open spec fn starts_with_seq(s: Seq<char>, prefix: Seq<char>) -> bool {
    prefix.len() <= s.len() && s.take(prefix.len() as int) == prefix
}

/// The ASCII upper-case form of one character; other characters stay.
pub open spec fn ascii_upper(c: char) -> char {
    if 'a' <= c && c <= 'z' {
        ((c as u32) - 32) as char
    } else {
        c
    }
}

/// Whether `pat` occurs in `s` starting at position `k`.
pub open spec fn occurs_at(s: Seq<char>, pat: Seq<char>, k: int) -> bool {
    0 <= k && k + pat.len() <= s.len() && s.subrange(k, k + pat.len()) == pat
}

/// The first position at or after `from` where `pat` occurs in `s`.
pub open spec fn find_from(s: Seq<char>, pat: Seq<char>, from: int) -> Option<int>
    decreases s.len() + 1 - from,
{
    if from < 0 || from + pat.len() > s.len() {
        None
    } else if occurs_at(s, pat, from) {
        Some(from)
    } else {
        find_from(s, pat, from + 1)
    }
}

/// The first position where `pat` occurs in `s`, as `str::find` gives it.
pub open spec fn find_seq(s: Seq<char>, pat: Seq<char>) -> Option<int> {
    find_from(s, pat, 0)
}

/// The number of bytes that the UTF-8 encoding of `c` takes.
pub open spec fn utf8_width(c: char) -> nat {
    if (c as u32) < 0x80 {
        1
    } else if (c as u32) < 0x800 {
        2
    } else if (c as u32) < 0x10000 {
        3
    } else {
        4
    }
}

/// The number of bytes that the UTF-8 encoding of `s` takes, which is what
/// `str::len` reports.
pub open spec fn utf8_len(s: Seq<char>) -> nat
    decreases s.len(),
{
    if s.len() == 0 {
        0
    } else {
        utf8_len(s.drop_last()) + utf8_width(s.last())
    }
}

/// The characters of each string of a list.
pub open spec fn strings_view(v: Seq<String>) -> Seq<Seq<char>> {
    v.map_values(|s: String| s@)
}

/// Whether every character of `s` is ASCII.
pub open spec fn all_ascii(s: Seq<char>) -> bool {
    forall|i: int| 0 <= i < s.len() ==> (#[trigger] s[i] as u32) < 128
}

/// The lower-case form of `s`, as `str::to_lowercase` gives it (Unicode
/// `Lowercase` mapping, with the final-sigma rule).
pub uninterp spec fn unicode_lowercase(s: Seq<char>) -> Seq<char>;

/// The lower-case form of `s` (std's `str::to_lowercase`). The contract
/// names the result; for ASCII input it also states what std's ASCII path
/// computes: every character is mapped by its ASCII lower-case form.
#[verifier::external_body]
pub(crate) fn to_lowercase_string(s: &str) -> (r: String)
    ensures
        r@ == unicode_lowercase(s@),
        all_ascii(s@) ==> r@ == s@.map_values(|c: char| ascii_lower(c)),
{
    s.to_lowercase()
}

/// The upper-case form of `s`, as `str::to_uppercase` gives it (Unicode
/// `Uppercase` mapping, where one character may become several).
pub uninterp spec fn unicode_uppercase(s: Seq<char>) -> Seq<char>;

/// The upper-case form of `s` (std's `str::to_uppercase`). The contract
/// names the result; for ASCII input it also states what std's ASCII path
/// computes: every character is mapped by its ASCII upper-case form.
#[verifier::external_body]
pub(crate) fn to_uppercase_string(s: &str) -> (r: String)
    ensures
        r@ == unicode_uppercase(s@),
        all_ascii(s@) ==> r@ == s@.map_values(|c: char| ascii_upper(c)),
{
    s.to_uppercase()
}

/// Whether `c` carries the Unicode `White_Space` property.
pub fn is_whitespace_char(c: char) -> (b: bool)
    ensures
        b == is_white_space(c),
{
    ('\u{9}' <= c && c <= '\u{d}') || c == ' ' || c == '\u{85}' || c == '\u{a0}' || c
        == '\u{1680}' || ('\u{2000}' <= c && c <= '\u{200a}') || c == '\u{2028}' || c
        == '\u{2029}' || c == '\u{202f}' || c == '\u{205f}' || c == '\u{3000}'
}

/// The ASCII lower-case form of `c`.
pub fn to_ascii_lower(c: char) -> (r: char)
    ensures
        r == ascii_lower(c),
{
    if 'A' <= c && c <= 'Z' {
        (((c as u32) + 32) as u8) as char
    } else {
        c
    }
}

/// The characters of `s`, in order.
pub fn chars_of(s: &str) -> (v: Vec<char>)
    ensures
        v@ == s@,
{
    let mut v: Vec<char> = Vec::new();
    for c in it: s.chars()
        invariant
            v@ == it.seq().take(it.index() as int),
            it.seq() == s@,
    {
        v.push(c);
    }
    v
}

/// Appends one character to a `String` (std's `String::push`).
#[verifier::external_body]
pub(crate) fn push_char(s: &mut String, c: char)
    ensures
        final(s)@ == old(s)@.push(c),
{
    s.push(c)
}

/// A copy of `s` as an owned `String`.
pub fn owned(s: &str) -> (r: String)
    ensures
        r@ == s@,
{
    s.to_owned()
}

/// Appends the characters of `t` to `out`.
pub fn append_str(out: &mut String, t: &str)
    ensures
        final(out)@ == old(out)@ + t@,
{
    let tv = chars_of(t);
    let ghost start = out@;
    let mut j: usize = 0;
    while j < tv.len()
        invariant
            j <= tv.len(),
            tv@ == t@,
            out@ == start + t@.take(j as int),
        decreases tv.len() - j,
    {
        push_char(out, tv[j]);
        assert((start + t@.take(j as int)).push(t@[j as int]) =~= start + t@.take(j + 1));
        j = j + 1;
    }
    assert(t@.take(tv.len() as int) =~= t@);
}

/// `a` followed by `b`, as a new `String`.
pub fn concat2(a: &str, b: &str) -> (r: String)
    ensures
        r@ == a@ + b@,
{
    let mut out = String::new();
    let av = chars_of(a);
    let bv = chars_of(b);
    let mut i: usize = 0;
    while i < av.len()
        invariant
            i <= av.len(),
            av@ == a@,
            out@ == a@.take(i as int),
        decreases av.len() - i,
    {
        push_char(&mut out, av[i]);
        assert(a@.take(i as int).push(a@[i as int]) =~= a@.take(i + 1));
        i = i + 1;
    }
    assert(a@.take(av.len() as int) =~= a@);
    let mut j: usize = 0;
    while j < bv.len()
        invariant
            j <= bv.len(),
            bv@ == b@,
            out@ == a@ + b@.take(j as int),
        decreases bv.len() - j,
    {
        push_char(&mut out, bv[j]);
        assert(b@.take(j as int).push(b@[j as int]) =~= b@.take(j + 1));
        assert((a@ + b@.take(j as int)).push(b@[j as int]) =~= a@ + b@.take(j + 1));
        j = j + 1;
    }
    assert(b@.take(bv.len() as int) =~= b@);
    out
}

/// `a`, then `b`, then `c`, as a new `String`.
pub fn concat3(a: &str, b: &str, c: &str) -> (r: String)
    ensures
        r@ == a@ + b@ + c@,
{
    let ab = concat2(a, b);
    concat2(ab.as_str(), c)
}

/// Whether `a` and `b` hold the same characters.
pub fn str_equal(a: &str, b: &str) -> (r: bool)
    ensures
        r == (a@ == b@),
{
    let av = chars_of(a);
    let bv = chars_of(b);
    if av.len() != bv.len() {
        return false;
    }
    let mut i: usize = 0;
    while i < av.len()
        invariant
            i <= av.len(),
            av.len() == bv.len(),
            av@ == a@,
            bv@ == b@,
            forall|k: int| 0 <= k < i ==> a@[k] == b@[k],
        decreases av.len() - i,
    {
        if av[i] != bv[i] {
            return false;
        }
        i = i + 1;
    }
    assert(a@ =~= b@);
    true
}

/// Whether `a` and `b` are equal when ASCII letters are compared without
/// regard to case.
pub fn str_eq_ignore_ascii_case(a: &str, b: &str) -> (r: bool)
    ensures
        r == eq_ignore_ascii_case_seq(a@, b@),
{
    let av = chars_of(a);
    let bv = chars_of(b);
    if av.len() != bv.len() {
        return false;
    }
    let mut i: usize = 0;
    while i < av.len()
        invariant
            i <= av.len(),
            av.len() == bv.len(),
            av@ == a@,
            bv@ == b@,
            forall|k: int| 0 <= k < i ==> #[trigger] ascii_lower(a@[k]) == ascii_lower(b@[k]),
        decreases av.len() - i,
    {
        if to_ascii_lower(av[i]) != to_ascii_lower(bv[i]) {
            return false;
        }
        i = i + 1;
    }
    true
}

/// Whether `s` ends with `suffix`.
pub fn str_ends_with(s: &str, suffix: &str) -> (r: bool)
    ensures
        r == ends_with_seq(s@, suffix@),
{
    let sv = chars_of(s);
    let pv = chars_of(suffix);
    if pv.len() > sv.len() {
        return false;
    }
    let off = sv.len() - pv.len();
    let mut i: usize = 0;
    while i < pv.len()
        invariant
            i <= pv.len(),
            off + pv.len() == sv.len(),
            sv@ == s@,
            pv@ == suffix@,
            forall|k: int| 0 <= k < i ==> s@[off + k] == suffix@[k],
        decreases pv.len() - i,
    {
        if sv[off + i] != pv[i] {
            assert(s@.subrange(off as int, s@.len() as int)[i as int] != suffix@[i as int]);
            return false;
        }
        i = i + 1;
    }
    assert(s@.subrange(off as int, s@.len() as int) =~= suffix@);
    true
}

/// Whether `s` begins with `prefix` (`str::starts_with` with a `&str`).
pub fn str_starts_with(s: &str, prefix: &str) -> (r: bool)
    ensures
        r == starts_with_seq(s@, prefix@),
{
    let sv = chars_of(s);
    let pv = chars_of(prefix);
    if pv.len() > sv.len() {
        return false;
    }
    let mut i: usize = 0;
    while i < pv.len()
        invariant
            i <= pv.len() <= sv.len(),
            sv@ == s@,
            pv@ == prefix@,
            forall|k: int| 0 <= k < i ==> s@[k] == prefix@[k],
        decreases pv.len() - i,
    {
        if sv[i] != pv[i] {
            assert(s@.take(pv.len() as int)[i as int] != prefix@[i as int]);
            return false;
        }
        i = i + 1;
    }
    assert(s@.take(pv.len() as int) =~= prefix@);
    true
}

/// Whether `pat` occurs in `v` at position `k`.
fn occurs_at_exec(v: &Vec<char>, pat: &Vec<char>, k: usize) -> (r: bool)
    requires
        k + pat.len() <= v.len(),
    ensures
        r == occurs_at(v@, pat@, k as int),
{
    let mut i: usize = 0;
    while i < pat.len()
        invariant
            i <= pat.len(),
            k + pat.len() <= v.len(),
            forall|j: int| 0 <= j < i ==> v@[k + j] == pat@[j],
        decreases pat.len() - i,
    {
        if v[k + i] != pat[i] {
            assert(v@.subrange(k as int, k + pat.len())[i as int] != pat@[i as int]);
            return false;
        }
        i = i + 1;
    }
    assert(v@.subrange(k as int, k + pat.len()) =~= pat@);
    true
}

/// The first position where `pat` occurs in `v`, counted in characters.
pub fn find_chars(v: &Vec<char>, pat: &Vec<char>) -> (r: Option<usize>)
    ensures
        match r {
            Some(k) => find_seq(v@, pat@) == Some(k as int) && occurs_at(v@, pat@, k as int),
            None => find_seq(v@, pat@) is None,
        },
{
    if pat.len() > v.len() {
        return None;
    }
    let last = v.len() - pat.len();
    let mut k: usize = 0;
    while k <= last
        invariant
            last + pat.len() == v.len(),
            k <= last + 1,
            find_seq(v@, pat@) == find_from(v@, pat@, k as int),
        decreases last + 1 - k,
    {
        if occurs_at_exec(v, pat, k) {
            return Some(k);
        }
        if k == last {
            return None;
        }
        k = k + 1;
    }
    None
}

/// The characters before the first whitespace of `s`.
pub open spec fn leading_word(s: Seq<char>) -> Seq<char>
    decreases s.len(),
{
    if s.len() == 0 || is_white_space(s[0]) {
        Seq::empty()
    } else {
        seq![s[0]] + leading_word(s.drop_first())
    }
}

/// The first whitespace-separated word of `s`, as `split_whitespace().next()`
/// gives it.
pub open spec fn first_word(s: Seq<char>) -> Option<Seq<char>> {
    let t = trim_start_seq(s);
    if t.len() == 0 {
        None
    } else {
        Some(leading_word(t))
    }
}

/// The first word of `v[from..]`, or none where only whitespace is left.
pub fn first_word_from(v: &Vec<char>, from: usize) -> (r: Option<String>)
    requires
        from <= v.len(),
    ensures
        match r {
            Some(w) => first_word(v@.skip(from as int)) == Some(w@),
            None => first_word(v@.skip(from as int)) is None,
        },
{
    let mut i: usize = from;
    assert(v@.skip(from as int) =~= v@.subrange(from as int, v.len() as int));
    while i < v.len() && is_whitespace_char(v[i])
        invariant
            from <= i <= v.len(),
            trim_start_seq(v@.skip(from as int)) == trim_start_seq(v@.subrange(i as int, v.len() as int)),
        decreases v.len() - i,
    {
        assert(v@.subrange(i as int, v.len() as int).drop_first() =~= v@.subrange(i + 1, v.len() as int));
        i = i + 1;
    }
    let ghost rest = v@.subrange(i as int, v.len() as int);
    assert(trim_start_seq(rest) == rest);
    if i == v.len() {
        assert(rest.len() == 0);
        return None;
    }
    let mut j: usize = i;
    assert(v@.subrange(i as int, j as int) =~= Seq::<char>::empty());
    assert(leading_word(rest) =~= v@.subrange(i as int, j as int) + leading_word(v@.subrange(j as int, v.len() as int)));
    while j < v.len() && !is_whitespace_char(v[j])
        invariant
            i <= j <= v.len(),
            rest == v@.subrange(i as int, v.len() as int),
            leading_word(rest) == v@.subrange(i as int, j as int) + leading_word(v@.subrange(j as int, v.len() as int)),
        decreases v.len() - j,
    {
        let ghost tail = v@.subrange(j as int, v.len() as int);
        assert(tail.drop_first() =~= v@.subrange(j + 1, v.len() as int));
        assert(leading_word(tail) == seq![v@[j as int]] + leading_word(tail.drop_first()));
        assert(v@.subrange(i as int, j as int) + (seq![v@[j as int]] + leading_word(tail.drop_first()))
            =~= v@.subrange(i as int, j + 1) + leading_word(v@.subrange(j + 1, v.len() as int)));
        j = j + 1;
    }
    assert(leading_word(v@.subrange(j as int, v.len() as int)) =~= Seq::<char>::empty());
    assert(leading_word(rest) =~= v@.subrange(i as int, j as int));
    Some(string_of_range(v, i, j))
}

/// The range of `v` that remains after leading and trailing whitespace is
/// removed.
pub fn trim_bounds(v: &Vec<char>) -> (r: (usize, usize))
    ensures
        r.0 <= r.1 <= v.len(),
        trim_seq(v@) == v@.subrange(r.0 as int, r.1 as int),
{
    let mut lo: usize = 0;
    assert(v@.subrange(0, v.len() as int) =~= v@);
    while lo < v.len() && is_whitespace_char(v[lo])
        invariant
            lo <= v.len(),
            trim_start_seq(v@) == trim_start_seq(v@.subrange(lo as int, v.len() as int)),
        decreases v.len() - lo,
    {
        assert(v@.subrange(lo as int, v.len() as int).drop_first() =~= v@.subrange(
            lo + 1,
            v.len() as int,
        ));
        lo = lo + 1;
    }
    assert(trim_start_seq(v@.subrange(lo as int, v.len() as int)) == v@.subrange(
        lo as int,
        v.len() as int,
    ));
    let mut hi: usize = v.len();
    while hi > lo && is_whitespace_char(v[hi - 1])
        invariant
            lo <= hi <= v.len(),
            trim_seq(v@) == trim_end_seq(v@.subrange(lo as int, hi as int)),
        decreases hi,
    {
        assert(v@.subrange(lo as int, hi as int).drop_last() =~= v@.subrange(
            lo as int,
            hi - 1,
        ));
        hi = hi - 1;
    }
    (lo, hi)
}

/// The characters `v[lo..hi]` as a `String`.
pub fn string_of_range(v: &Vec<char>, lo: usize, hi: usize) -> (s: String)
    requires
        lo <= hi <= v.len(),
    ensures
        s@ == v@.subrange(lo as int, hi as int),
{
    let mut out = String::new();
    let mut i: usize = lo;
    while i < hi
        invariant
            lo <= i <= hi <= v.len(),
            out@ == v@.subrange(lo as int, i as int),
        decreases hi - i,
    {
        push_char(&mut out, v[i]);
        assert(v@.subrange(lo as int, i as int).push(v@[i as int]) =~= v@.subrange(
            lo as int,
            i + 1,
        ));
        i = i + 1;
    }
    out
}

/// `s` without leading and trailing whitespace (`str::trim`).
pub fn trimmed(s: &str) -> (r: String)
    ensures
        r@ == trim_seq(s@),
{
    let v = chars_of(s);
    let (lo, hi) = trim_bounds(&v);
    string_of_range(&v, lo, hi)
}

/// The number of bytes in the UTF-8 encoding of `c` (`char::len_utf8`).
pub fn char_utf8_width(c: char) -> (n: usize)
    ensures
        n == utf8_width(c),
{
    if (c as u32) < 0x80 {
        1
    } else if (c as u32) < 0x800 {
        2
    } else if (c as u32) < 0x10000 {
        3
    } else {
        4
    }
}

/// A bound on the UTF-8 length of a sequence.
pub proof fn lemma_utf8_len_bounds(s: Seq<char>)
    ensures
        s.len() <= utf8_len(s) <= 4 * s.len(),
    decreases s.len(),
{
    if s.len() > 0 {
        lemma_utf8_len_bounds(s.drop_last());
    }
}

/// The bytes of two strings together are the bytes of each.
pub proof fn lemma_utf8_len_concat(a: Seq<char>, b: Seq<char>)
    ensures
        utf8_len(a + b) == utf8_len(a) + utf8_len(b),
    decreases b.len(),
{
    if b.len() > 0 {
        lemma_utf8_len_concat(a, b.drop_last());
        assert((a + b).drop_last() =~= a + b.drop_last());
    } else {
        assert(a + b =~= a);
    }
}

/// Upper-casing an ASCII character keeps it ASCII, keeps whether it is
/// whitespace, and lower-casing it afterwards gives its lower-case form.
pub proof fn lemma_ascii_upper_char(c: char)
    requires
        (c as u32) < 128,
    ensures
        (ascii_upper(c) as u32) < 128,
        is_white_space(ascii_upper(c)) == is_white_space(c),
        ascii_lower(ascii_upper(c)) == ascii_lower(c),
{
    if 'a' <= c && c <= 'z' {
        assert((c as u32) >= 97 && (c as u32) <= 122);
        let u = ((c as u32) - 32) as char;
        assert((u as u32) == (c as u32) - 32);
        assert('A' <= u && u <= 'Z');
        assert(((u as u32) + 32) as char == c);
    }
}

/// Trimming an ASCII string commutes with upper-casing it, and trimming its
/// upper-case form then lower-casing gives what trimming it then
/// lower-casing gives.
pub proof fn lemma_trim_ignores_ascii_case(s: Seq<char>)
    requires
        all_ascii(s),
    ensures
        all_ascii(s.map_values(|c: char| ascii_upper(c))),
        trim_seq(s.map_values(|c: char| ascii_upper(c))) == trim_seq(s).map_values(
            |c: char| ascii_upper(c),
        ),
        all_ascii(trim_seq(s.map_values(|c: char| ascii_upper(c)))),
        trim_seq(s.map_values(|c: char| ascii_upper(c))).map_values(|c: char| ascii_lower(c))
            == trim_seq(s).map_values(|c: char| ascii_lower(c)),
{
    let up = |c: char| ascii_upper(c);
    let u = s.map_values(up);
    assert forall|i: int| 0 <= i < u.len() implies (#[trigger] u[i] as u32) < 128 by {
        lemma_ascii_upper_char(s[i]);
    }
    lemma_trim_start_upper(s);
    let t = trim_start_seq(s);
    lemma_trim_start_sub(s);
    lemma_trim_end_upper(t);
    lemma_trim_end_sub(t);
    let tt = trim_seq(s);
    assert forall|i: int| 0 <= i < tt.len() implies (#[trigger] tt.map_values(up)[i] as u32) < 128 by {
        lemma_ascii_upper_char(tt[i]);
    }
    let lo = |c: char| ascii_lower(c);
    let a = tt.map_values(up).map_values(lo);
    let b = tt.map_values(lo);
    assert forall|i: int| 0 <= i < tt.len() implies #[trigger] a[i] == b[i] by {
        lemma_ascii_upper_char(tt[i]);
    }
    assert(a =~= b);
}

/// What trimming the front leaves is all ASCII when the whole is.
proof fn lemma_trim_start_sub(s: Seq<char>)
    requires
        all_ascii(s),
    ensures
        all_ascii(trim_start_seq(s)),
    decreases s.len(),
{
    if s.len() > 0 && is_white_space(s[0]) {
        assert forall|i: int| 0 <= i < s.drop_first().len() implies (#[trigger] s.drop_first()[i] as u32) < 128 by {
            assert(s.drop_first()[i] == s[i + 1]);
        }
        lemma_trim_start_sub(s.drop_first());
    }
}

/// What trimming the back leaves is all ASCII when the whole is.
proof fn lemma_trim_end_sub(s: Seq<char>)
    requires
        all_ascii(s),
    ensures
        all_ascii(trim_end_seq(s)),
    decreases s.len(),
{
    if s.len() > 0 && is_white_space(s.last()) {
        lemma_trim_end_sub(s.drop_last());
    }
}

/// Trimming the front commutes with upper-casing.
proof fn lemma_trim_start_upper(s: Seq<char>)
    requires
        all_ascii(s),
    ensures
        trim_start_seq(s.map_values(|c: char| ascii_upper(c))) == trim_start_seq(s).map_values(
            |c: char| ascii_upper(c),
        ),
    decreases s.len(),
{
    let u = s.map_values(|c: char| ascii_upper(c));
    if s.len() > 0 {
        lemma_ascii_upper_char(s[0]);
        assert(u[0] == ascii_upper(s[0]));
        if is_white_space(s[0]) {
            assert(u.drop_first() =~= s.drop_first().map_values(|c: char| ascii_upper(c)));
            assert forall|i: int| 0 <= i < s.drop_first().len() implies (#[trigger] s.drop_first()[i] as u32) < 128 by {
                assert(s.drop_first()[i] == s[i + 1]);
            }
            lemma_trim_start_upper(s.drop_first());
        }
    } else {
        assert(u =~= s.map_values(|c: char| ascii_upper(c)));
    }
}

/// Trimming the back commutes with upper-casing.
proof fn lemma_trim_end_upper(s: Seq<char>)
    requires
        all_ascii(s),
    ensures
        trim_end_seq(s.map_values(|c: char| ascii_upper(c))) == trim_end_seq(s).map_values(
            |c: char| ascii_upper(c),
        ),
    decreases s.len(),
{
    let u = s.map_values(|c: char| ascii_upper(c));
    if s.len() > 0 {
        lemma_ascii_upper_char(s.last());
        assert(u.last() == ascii_upper(s.last()));
        if is_white_space(s.last()) {
            assert(u.drop_last() =~= s.drop_last().map_values(|c: char| ascii_upper(c)));
            lemma_trim_end_upper(s.drop_last());
        }
    }
}

/// The UTF-8 length of a prefix grows by the width of the next character.
pub proof fn lemma_utf8_len_take(s: Seq<char>, i: int)
    requires
        0 <= i < s.len(),
    ensures
        utf8_len(s.take(i + 1)) == utf8_len(s.take(i)) + utf8_width(s[i]),
{
    assert(s.take(i + 1).drop_last() =~= s.take(i));
}

/// The number of bytes that the UTF-8 encoding of the characters in `v` takes.
pub fn utf8_len_of(v: &Vec<char>) -> (n: usize)
    requires
        4 * v.len() <= usize::MAX,
    ensures
        n == utf8_len(v@),
{
    let mut n: usize = 0;
    let mut i: usize = 0;
    while i < v.len()
        invariant
            i <= v.len(),
            4 * v.len() <= usize::MAX,
            n == utf8_len(v@.take(i as int)),
        decreases v.len() - i,
    {
        proof {
            lemma_utf8_len_take(v@, i as int);
            lemma_utf8_len_bounds(v@.take(i + 1));
        }
        n = n + char_utf8_width(v[i]);
        i = i + 1;
    }
    assert(v@.take(v.len() as int) =~= v@);
    n
}

/// The decimal digit for `d` (below ten).
pub open spec fn digit_char(d: nat) -> char {
    if d == 0 { '0' } else if d == 1 { '1' } else if d == 2 { '2' } else if d == 3 { '3' } else if d
        == 4 { '4' } else if d == 5 { '5' } else if d == 6 { '6' } else if d == 7 { '7' } else if d
        == 8 { '8' } else { '9' }
}

/// The decimal notation of `n`, without sign or leading zeros, as `{}`
/// formats an unsigned integer.
pub open spec fn decimal(n: nat) -> Seq<char>
    decreases n,
{
    if n < 10 {
        seq![digit_char(n)]
    } else {
        decimal(n / 10).push(digit_char(n % 10))
    }
}

/// The decimal digit for `d`.
fn digit_of(d: u64) -> (c: char)
    requires
        d < 10,
    ensures
        c == digit_char(d as nat),
{
    if d == 0 { '0' } else if d == 1 { '1' } else if d == 2 { '2' } else if d == 3 { '3' } else if d
        == 4 { '4' } else if d == 5 { '5' } else if d == 6 { '6' } else if d == 7 { '7' } else if d
        == 8 { '8' } else { '9' }
}

/// The decimal notation of `n`.
pub fn decimal_string(n: u64) -> (r: String)
    ensures
        r@ == decimal(n as nat),
    decreases n,
{
    if n < 10 {
        let mut out = String::new();
        push_char(&mut out, digit_of(n));
        assert(out@ =~= seq![digit_char(n as nat)]);
        out
    } else {
        let mut out = decimal_string(n / 10);
        push_char(&mut out, digit_of(n % 10));
        out
    }
}

/// The octal notation of `n`, without prefix or leading zeros, as `{:o}`
/// formats an unsigned integer.
pub open spec fn octal(n: nat) -> Seq<char>
    decreases n,
{
    if n < 8 {
        seq![digit_char(n)]
    } else {
        octal(n / 8).push(digit_char(n % 8))
    }
}

/// The octal notation of `n`.
pub fn octal_string(n: u32) -> (r: String)
    ensures
        r@ == octal(n as nat),
    decreases n,
{
    if n < 8 {
        let mut out = String::new();
        push_char(&mut out, digit_of(n as u64));
        assert(out@ =~= seq![digit_char(n as nat)]);
        out
    } else {
        let mut out = octal_string(n / 8);
        push_char(&mut out, digit_of((n % 8) as u64));
        out
    }
}

/// The decimal notation of a signed integer, with a leading `-` when it is
/// negative, as `{}` formats it.
pub open spec fn signed_decimal(n: int) -> Seq<char> {
    if n < 0 {
        seq!['-'] + decimal((-n) as nat)
    } else {
        decimal(n as nat)
    }
}

/// The decimal notation of `n`, signed.
pub fn signed_decimal_string(n: i32) -> (r: String)
    ensures
        r@ == signed_decimal(n as int),
{
    if n < 0 {
        let magnitude: i64 = -(n as i64);
        let digits = decimal_string(magnitude as u64);
        proof {
            reveal_strlit("-");
        }
        assert("-"@ =~= seq!['-']);
        concat2("-", digits.as_str())
    } else {
        decimal_string(n as u64)
    }
}

} // verus!
