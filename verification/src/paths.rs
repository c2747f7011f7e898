//! Paths, held as strings. Joining and taking a file name's extension are
//! written out here; the component-wise queries (`file_name`, `parent`,
//! `strip_prefix`, `==`) are std's own, reached through wrappers whose
//! results carry names, and whether a path exists is asked of the file
//! system.
use crate::text::{chars_of, push_char};
use vstd::prelude::*;

verus! {

/// The final component of a path, as `Path::file_name` gives it.
pub uninterp spec fn path_file_name(p: Seq<char>) -> Option<Seq<char>>;

/// The path without its final component, as `Path::parent` gives it.
pub uninterp spec fn path_parent(p: Seq<char>) -> Option<Seq<char>>;

/// The position of the last `.` in `n`, or -1 where there is none.
pub open spec fn last_dot(n: Seq<char>) -> int
    decreases n.len(),
{
    if n.len() == 0 {
        -1
    } else if n.last() == '.' {
        n.len() - 1
    } else {
        last_dot(n.drop_last())
    }
}

/// The extension of a file name: what follows its last `.`; none where the
/// name is `..`, holds no `.`, or holds only a leading one.
pub open spec fn name_extension(n: Seq<char>) -> Option<Seq<char>> {
    if n == ".."@ || last_dot(n) <= 0 {
        None
    } else {
        Some(n.skip(last_dot(n) + 1))
    }
}

/// The extension of the final component, as `Path::extension` gives it:
/// that of the file name, none without one.
pub open spec fn path_extension(p: Seq<char>) -> Option<Seq<char>> {
    match path_file_name(p) {
        Some(n) => name_extension(n),
        None => None,
    }
}

/// What remains of `p` after the leading components that make up `base`, as
/// `Path::strip_prefix` gives it (`None` where `base` is no prefix of `p`).
pub uninterp spec fn path_strip_prefix(p: Seq<char>, base: Seq<char>) -> Option<Seq<char>>;

/// `base` joined with `rest` on Unix, as `Path::join` does it: an absolute
/// `rest` replaces `base`; otherwise a `/` separates the two unless `base` is
/// empty or already ends with one.
pub open spec fn path_join(base: Seq<char>, rest: Seq<char>) -> Seq<char> {
    if rest.len() > 0 && rest[0] == '/' {
        rest
    } else if base.len() == 0 || base.last() == '/' {
        base + rest
    } else {
        base.push('/') + rest
    }
}

/// The final component of `p` (std's `Path::file_name`).
#[verifier::external_body]
pub(crate) fn file_name_of(p: &str) -> (r: Option<String>)
    ensures
        match r {
            Some(s) => path_file_name(p@) == Some(s@),
            None => path_file_name(p@) is None,
        },
{
    match std::path::Path::new(p).file_name() {
        Some(os) => match os.to_str() {
            Some(s) => Some(s.to_string()),
            None => None,
        },
        None => None,
    }
}

/// The parent of `p` (std's `Path::parent`).
#[verifier::external_body]
pub(crate) fn parent_of(p: &str) -> (r: Option<String>)
    ensures
        match r {
            Some(s) => path_parent(p@) == Some(s@),
            None => path_parent(p@) is None,
        },
{
    match std::path::Path::new(p).parent() {
        Some(parent) => match parent.to_str() {
            Some(s) => Some(s.to_string()),
            None => None,
        },
        None => None,
    }
}

/// What follows the last `.` of a file name, as `Path::extension` takes it
/// from the name: none for `..`, for a name without `.`, or for one whose
/// only `.` leads.
fn name_extension_of(n: &str) -> (r: Option<String>)
    ensures
        match r {
            Some(s) => name_extension(n@) == Some(s@),
            None => name_extension(n@) is None,
        },
{
    let v = chars_of(n);
    let ghost nv = n@;
    let mut found: bool = false;
    let mut k: usize = 0;
    let mut i: usize = 0;
    while i < v.len()
        invariant
            v@ == nv,
            i <= v@.len(),
            found ==> k < i,
            last_dot(nv.take(i as int)) == (if found {
                k as int
            } else {
                -1
            }),
        decreases v@.len() - i,
    {
        proof {
            assert(nv.take(i + 1).drop_last() =~= nv.take(i as int));
            assert(nv.take(i + 1).last() == nv[i as int]);
        }
        if v[i] == '.' {
            found = true;
            k = i;
        }
        i = i + 1;
    }
    assert(nv.take(v@.len() as int) =~= nv);
    if crate::text::str_equal(n, "..") || !found || k == 0 {
        return None;
    }
    let mut out = String::new();
    let mut j: usize = k + 1;
    while j < v.len()
        invariant
            v@ == nv,
            k < v@.len(),
            k + 1 <= j <= v@.len(),
            out@ == nv.subrange(k + 1, j as int),
        decreases v@.len() - j,
    {
        push_char(&mut out, v[j]);
        assert(nv.subrange(k + 1, j + 1) =~= nv.subrange(k + 1, j as int).push(nv[j as int]));
        j = j + 1;
    }
    assert(nv.subrange(k + 1, nv.len() as int) =~= nv.skip(k + 1));
    Some(out)
}

/// The extension of `p`, as std's `Path::extension` gives it: that of its
/// file name, none without one.
pub(crate) fn extension_of(p: &str) -> (r: Option<String>)
    ensures
        match r {
            Some(s) => path_extension(p@) == Some(s@),
            None => path_extension(p@) is None,
        },
{
    match file_name_of(p) {
        Some(n) => name_extension_of(n.as_str()),
        None => None,
    }
}

/// `p` relative to `base` (std's `Path::strip_prefix`).
#[verifier::external_body]
pub(crate) fn strip_prefix_of(p: &str, base: &str) -> (r: Option<String>)
    ensures
        match r {
            Some(s) => path_strip_prefix(p@, base@) == Some(s@),
            None => path_strip_prefix(p@, base@) is None,
        },
{
    match std::path::Path::new(p).strip_prefix(base) {
        Ok(rel) => match rel.to_str() {
            Some(s) => Some(s.to_string()),
            None => None,
        },
        Err(_) => None,
    }
}

/// Whether two paths are equal component by component, as `Path`'s `==`
/// compares them.
pub uninterp spec fn path_components_equal(a: Seq<char>, b: Seq<char>) -> bool;

/// Whether `a` and `b` name the same path: the same text always does (its
/// components are the same), and otherwise `Path`'s `==` decides.
pub open spec fn same_path(a: Seq<char>, b: Seq<char>) -> bool {
    a == b || path_components_equal(a, b)
}

/// Whether `a` and `b` name the same path (std's `==` on `Path`, which
/// compares the components that parsing gives, so equal texts compare
/// equal).
#[verifier::external_body]
pub(crate) fn paths_equal(a: &str, b: &str) -> (r: bool)
    ensures
        r == (a@ == b@ || path_components_equal(a@, b@)),
        r == same_path(a@, b@),
{
    std::path::Path::new(a) == std::path::Path::new(b)
}

/// Whether something exists at `p` on disk now (std's `Path::exists`). The
/// answer depends on the file system, so nothing is promised of it.
#[verifier::external_body]
pub(crate) fn path_exists(p: &str) -> bool {
    std::path::Path::new(p).exists()
}

/// `base` joined with `rest`, as `Path::join` joins them on Unix.
pub fn join_path(base: &str, rest: &str) -> (r: String)
    ensures
        r@ == path_join(base@, rest@),
{
    let bv = chars_of(base);
    let rv = chars_of(rest);
    let mut out = String::new();
    if rv.len() > 0 && rv[0] == '/' {
        let mut j: usize = 0;
        while j < rv.len()
            invariant
                j <= rv.len(),
                rv@ == rest@,
                out@ == rest@.take(j as int),
            decreases rv.len() - j,
        {
            push_char(&mut out, rv[j]);
            assert(rest@.take(j as int).push(rest@[j as int]) =~= rest@.take(j + 1));
            j = j + 1;
        }
        assert(rest@.take(rv.len() as int) =~= rest@);
        return out;
    }
    let mut i: usize = 0;
    while i < bv.len()
        invariant
            i <= bv.len(),
            bv@ == base@,
            out@ == base@.take(i as int),
        decreases bv.len() - i,
    {
        push_char(&mut out, bv[i]);
        assert(base@.take(i as int).push(base@[i as int]) =~= base@.take(i + 1));
        i = i + 1;
    }
    assert(base@.take(bv.len() as int) =~= base@);
    let ghost prefix = if base@.len() == 0 || base@.last() == '/' {
        base@
    } else {
        base@.push('/')
    };
    if bv.len() > 0 && bv[bv.len() - 1] != '/' {
        push_char(&mut out, '/');
    }
    assert(out@ == prefix);
    let mut j: usize = 0;
    while j < rv.len()
        invariant
            j <= rv.len(),
            rv@ == rest@,
            out@ == prefix + rest@.take(j as int),
        decreases rv.len() - j,
    {
        push_char(&mut out, rv[j]);
        assert((prefix + rest@.take(j as int)).push(rest@[j as int]) =~= prefix + rest@.take(
            j + 1,
        ));
        j = j + 1;
    }
    assert(rest@.take(rv.len() as int) =~= rest@);
    out
}

} // verus!
