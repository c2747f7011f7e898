//! Pattern-based file search: entry type filters, case sensitivity modes,
//! pattern normalization, glob matching (through `globset`), and the
//! decision, for each entry that the directory walk yields, whether it is a
//! hit and whether the walk goes on.
use crate::paths::{path_strip_prefix, paths_equal, same_path, strip_prefix_of};
use crate::text::{
    all_ascii, ascii_lower, chars_of, concat2, concat3, lemma_utf8_len_concat, owned, str_equal,
    to_lowercase_string, trim_seq, trimmed, unicode_lowercase, utf8_len,
};
use vstd::prelude::*;

verus! {

/// A compiled set of glob patterns.
#[verifier::external_type_specification]
#[verifier::external_body]
pub struct ExGlobSet(globset::GlobSet);

/// Which entry types to include in search results.
#[derive(Debug, Clone, Copy, PartialEq, Eq, Structural)]
pub enum SearchType {
    File,
    Dir,
    Any,
}

/// The entry type that a lower-cased, trimmed name stands for.
pub open spec fn search_type_for(l: Seq<char>) -> Option<SearchType> {
    if l == "f"@ || l == "file"@ {
        Some(SearchType::File)
    } else if l == "d"@ || l == "dir"@ || l == "directory"@ {
        Some(SearchType::Dir)
    } else if l == "a"@ || l == "any"@ || l == "all"@ {
        Some(SearchType::Any)
    } else {
        None
    }
}

/// The message for a name that names no entry type.
pub open spec fn unknown_type_message(l: Seq<char>) -> Seq<char> {
    "Unknown type '"@ + l + "'. Valid values: file (f), dir (d), any (a)"@
}

/// Whether `r` is what parsing gives for the lower-cased, trimmed name `l`.
pub open spec fn search_type_result_is(r: Result<SearchType, String>, l: Seq<char>) -> bool {
    match search_type_for(l) {
        Some(t) => r == Ok::<SearchType, String>(t),
        None => r matches Err(m) && m@ == unknown_type_message(l),
    }
}

/// Parses an entry type: surrounding whitespace is ignored and case does not
/// matter; `f`/`file`, `d`/`dir`/`directory` and `a`/`any`/`all` are known.
pub fn parse_search_type(s: &str) -> (r: Result<SearchType, String>)
    ensures
        search_type_result_is(r, unicode_lowercase(trim_seq(s@))),
        all_ascii(trim_seq(s@)) ==> search_type_result_is(
            r,
            trim_seq(s@).map_values(|c: char| ascii_lower(c)),
        ),
{
    let t = trimmed(s);
    let l = to_lowercase_string(t.as_str());
    let ls = l.as_str();
    if str_equal(ls, "f") || str_equal(ls, "file") {
        Ok(SearchType::File)
    } else if str_equal(ls, "d") || str_equal(ls, "dir") || str_equal(ls, "directory") {
        Ok(SearchType::Dir)
    } else if str_equal(ls, "a") || str_equal(ls, "any") || str_equal(ls, "all") {
        Ok(SearchType::Any)
    } else {
        Err(concat3("Unknown type '", ls, "'. Valid values: file (f), dir (d), any (a)"))
    }
}

impl std::str::FromStr for SearchType {
    type Err = String;

    fn from_str(s: &str) -> (r: Result<SearchType, String>)
        ensures
            search_type_result_is(r, unicode_lowercase(trim_seq(s@))),
            all_ascii(trim_seq(s@)) ==> search_type_result_is(
                r,
                trim_seq(s@).map_values(|c: char| ascii_lower(c)),
            ),
    {
        parse_search_type(s)
    }
}

/// Whether an entry passes the type filter.
pub open spec fn type_matches(t: SearchType, is_dir: bool) -> bool {
    match t {
        SearchType::File => !is_dir,
        SearchType::Dir => is_dir,
        SearchType::Any => true,
    }
}

/// Whether an entry passes the type filter.
pub fn entry_type_matches(t: SearchType, is_dir: bool) -> (b: bool)
    ensures
        b == type_matches(t, is_dir),
{
    match t {
        SearchType::File => !is_dir,
        SearchType::Dir => is_dir,
        SearchType::Any => true,
    }
}

/// Case sensitivity mode for pattern matching.
#[derive(Debug, Clone, Copy, PartialEq, Eq, Structural)]
pub enum CaseMode {
    /// Case-insensitive if the pattern has no upper-case letter;
    /// case-sensitive if it has one.
    Smart,
    /// Force case-sensitive matching.
    Sensitive,
    /// Force case-insensitive matching.
    Insensitive,
}

impl Default for CaseMode {
    fn default() -> (m: Self)
        ensures
            m == CaseMode::Smart,
    {
        CaseMode::Smart
    }
}

/// Whether `c` is a glob metacharacter.
pub open spec fn is_glob_meta(c: char) -> bool {
    c == '*' || c == '?' || c == '['
}

/// Whether `p` contains a glob metacharacter.
pub open spec fn has_meta(p: Seq<char>) -> bool {
    exists|i: int| 0 <= i < p.len() && is_glob_meta(#[trigger] p[i])
}

/// Checks whether a pattern contains glob metacharacters (`*`, `?`, `[`).
pub fn has_glob_metachars(pattern: &str) -> (b: bool)
    ensures
        b == has_meta(pattern@),
{
    let v = chars_of(pattern);
    let mut i: usize = 0;
    while i < v.len()
        invariant
            i <= v.len(),
            v@ == pattern@,
            forall|k: int| 0 <= k < i ==> !is_glob_meta(#[trigger] pattern@[k]),
        decreases v.len() - i,
    {
        let c = v[i];
        if c == '*' || c == '?' || c == '[' {
            assert(is_glob_meta(pattern@[i as int]));
            return true;
        }
        i = i + 1;
    }
    false
}

/// The pattern that is matched: the pattern itself when matching is exact or
/// it already holds a metacharacter; otherwise `*pattern*`, which matches
/// names that contain it.
pub open spec fn normalized(p: Seq<char>, exact: bool) -> Seq<char> {
    if exact || has_meta(p) {
        p
    } else {
        "*"@ + p + "*"@
    }
}

/// Normalizes a search pattern: unless `exact` is set or the pattern holds a
/// glob metacharacter, it is wrapped in `*…*` for substring matching.
pub fn normalize_pattern(pattern: &str, exact: bool) -> (r: String)
    ensures
        r@ == normalized(pattern@, exact),
{
    if exact || has_glob_metachars(pattern) {
        owned(pattern)
    } else {
        concat3("*", pattern, "*")
    }
}

/// Normalizing twice is normalizing once: a normalized pattern is either
/// matched exactly or already holds a metacharacter.
pub proof fn lemma_normalize_idempotent(p: Seq<char>, exact: bool)
    ensures
        normalized(normalized(p, exact), exact) == normalized(p, exact),
{
    if !exact && !has_meta(p) {
        let w = "*"@ + p + "*"@;
        reveal_strlit("*");
        assert(w[0] == '*');
        assert(is_glob_meta(w[0]));
        assert(has_meta(w));
    }
}

/// A pattern with a metacharacter, or one matched exactly, is left as it is;
/// any other is wrapped in one `*` on each side.
pub proof fn lemma_normalize_shape(p: Seq<char>, exact: bool)
    ensures
        exact || has_meta(p) ==> normalized(p, exact) == p,
        !exact && !has_meta(p) ==> normalized(p, exact).len() == p.len() + 2 && normalized(
            p,
            exact,
        )[0] == '*' && normalized(p, exact).last() == '*' && normalized(p, exact).subrange(
            1,
            p.len() as int + 1,
        ) == p,
{
    reveal_strlit("*");
    if !exact && !has_meta(p) {
        let w = "*"@ + p + "*"@;
        assert(w.subrange(1, p.len() as int + 1) =~= p);
    }
}

/// Normalizing adds at most two bytes.
proof fn lemma_normalized_bytes(p: Seq<char>, exact: bool)
    ensures
        utf8_len(normalized(p, exact)) <= utf8_len(p) + 2,
{
    if !(exact || has_meta(p)) {
        reveal_strlit("*");
        lemma_utf8_len_concat("*"@, p);
        lemma_utf8_len_concat("*"@ + p, "*"@);
        assert(utf8_len("*"@) == 1) by {
            let d = "*"@;
            assert(d.len() == 1);
            assert(utf8_len(d.drop_last()) == 0);
        }
    }
}

/// Whether `c` carries the Unicode `Uppercase` property, as
/// `char::is_uppercase` says.
pub uninterp spec fn unicode_is_uppercase(c: char) -> bool;

/// Whether `c` is upper-case (std's `char::is_uppercase`). For ASCII the
/// upper-case characters are exactly `A` to `Z`.
#[verifier::external_body]
fn char_is_uppercase(c: char) -> (b: bool)
    ensures
        b == unicode_is_uppercase(c),
        (c as u32) < 128 ==> (b <==> ('A' <= c && c <= 'Z')),
{
    c.is_uppercase()
}

/// Whether `p` holds an upper-case character.
pub open spec fn has_uppercase(p: Seq<char>) -> bool {
    exists|i: int| 0 <= i < p.len() && unicode_is_uppercase(#[trigger] p[i])
}

/// Whether matching in this mode ignores case, for this pattern.
pub open spec fn ignores_case(mode: CaseMode, pattern: Seq<char>) -> bool {
    match mode {
        CaseMode::Insensitive => true,
        CaseMode::Sensitive => false,
        CaseMode::Smart => !has_uppercase(pattern),
    }
}

/// Whether `pattern` holds an upper-case character.
fn pattern_has_uppercase(pattern: &str) -> (b: bool)
    ensures
        b == has_uppercase(pattern@),
{
    let v = chars_of(pattern);
    let mut i: usize = 0;
    while i < v.len()
        invariant
            i <= v.len(),
            v@ == pattern@,
            forall|k: int| 0 <= k < i ==> !unicode_is_uppercase(#[trigger] pattern@[k]),
        decreases v.len() - i,
    {
        if char_is_uppercase(v[i]) {
            assert(unicode_is_uppercase(pattern@[i as int]));
            return true;
        }
        i = i + 1;
    }
    false
}

/// Options controlling how a search is executed.
#[derive(Debug, Clone)]
pub struct SearchOptions {
    /// Pattern given by the user or caller.
    pub pattern: String,
    /// Entry type filter.
    pub entry_type: SearchType,
    /// Root directory to search from.
    pub root: String,
    /// Case sensitivity mode.
    pub case_mode: CaseMode,
    /// Require an exact name match (no automatic substring wrapping).
    pub exact: bool,
    /// Maximum number of results (0 = unlimited).
    pub limit: usize,
    /// Whether to follow symlinks.
    pub follow_links: bool,
    /// Whether to search hidden files and directories.
    pub hidden: bool,
}

/// Whether a glob pattern, with this case setting and without a literal
/// separator, compiles: it parses (`GlobBuilder::build`) and the set made of
/// it builds (`GlobSetBuilder::build`, which fails when a regular expression
/// derived from the pattern exceeds regex-automata's size limits).
pub uninterp spec fn glob_compiles(pattern: Seq<char>, case_insensitive: bool) -> bool;

/// The display text of the error that compiling a glob pattern gives.
pub uninterp spec fn glob_error_message(pattern: Seq<char>, case_insensitive: bool) -> Seq<char>;

/// Whether the glob pattern, with this case setting and without a literal
/// separator, matches `name`, as `GlobSet::is_match` on the set of that one
/// glob decides it (globset documents that a set matches a path when one of
/// its globs does).
pub uninterp spec fn glob_matches(pattern: Seq<char>, case_insensitive: bool, name: Seq<char>) -> bool;

/// The most UTF-8 bytes a pattern may take: globset builds an Aho-Corasick
/// automaton for a literal prefix or suffix of a pattern and unwraps the
/// result, which fails once the automaton needs more than `i32::MAX - 1`
/// states (about one per byte).
pub const MAX_PATTERN_BYTES: usize = 1073741824;

/// Compiles a glob pattern into a set of that one glob: globset's
/// `GlobBuilder::new(..).case_insensitive(..).literal_separator(false)
/// .build()`, then `GlobSetBuilder::build` on the result. It succeeds
/// exactly when the pattern compiles; an error is given as its display text.
#[verifier::external_body]
fn compile_glob(pattern: &str, case_insensitive: bool) -> (r: Result<globset::GlobSet, String>)
    requires
        utf8_len(pattern@) < MAX_PATTERN_BYTES,
    ensures
        r is Ok <==> glob_compiles(pattern@, case_insensitive),
        r matches Err(m) ==> m@ == glob_error_message(pattern@, case_insensitive),
{
    let glob = match globset::GlobBuilder::new(pattern).case_insensitive(case_insensitive)
        .literal_separator(false).build() {
        Ok(g) => g,
        Err(e) => return Err(e.to_string()),
    };
    match globset::GlobSetBuilder::new().add(glob).build() {
        Ok(set) => Ok(set),
        Err(e) => Err(e.to_string()),
    }
}

/// A compiled pattern, with the pattern and case setting it was compiled
/// from.
#[derive(Debug)]
pub struct NameMatcher {
    matcher: globset::GlobSet,
    pattern: String,
    case_insensitive: bool,
}

impl NameMatcher {
    /// The stored pattern compiles with the stored case setting; a matcher
    /// is only built where compiling them gave its set.
    #[verifier::type_invariant]
    spec fn compiled(self) -> bool {
        glob_compiles(self.pattern@, self.case_insensitive)
    }

    /// The pattern that was compiled.
    pub closed spec fn pattern(&self) -> Seq<char> {
        self.pattern@
    }

    /// Whether matching ignores case.
    pub closed spec fn ignores_case(&self) -> bool {
        self.case_insensitive
    }

    /// Whether `name` matches the pattern.
    pub fn is_match(&self, name: &str) -> (b: bool)
        ensures
            b == glob_matches(self.pattern(), self.ignores_case(), name@),
    {
        matcher_accepts(self, name)
    }
}

/// Whether the matcher accepts `name` (globset's `GlobSet::is_match`). A
/// `NameMatcher`'s fields are private and it is only built by
/// `SearchOptions::build_matcher`, which compiles the stored pattern with the
/// stored case setting into the stored set.
#[verifier::external_body]
fn matcher_accepts(m: &NameMatcher, name: &str) -> (b: bool)
    ensures
        b == glob_matches(m.pattern@, m.case_insensitive, name@),
{
    m.matcher.is_match(name)
}

/// The message of a pattern that does not compile.
pub open spec fn invalid_pattern_message(pattern: Seq<char>, case_insensitive: bool) -> Seq<char> {
    "Invalid glob pattern '"@ + pattern + "': "@ + glob_error_message(pattern, case_insensitive)
}

impl SearchOptions {
    /// Computes the effective glob pattern to compile.
    pub fn effective_pattern(&self) -> (r: String)
        ensures
            r@ == normalized(self.pattern@, self.exact),
    {
        normalize_pattern(self.pattern.as_str(), self.exact)
    }

    /// Whether matching should ignore case: always, never, or (smart mode)
    /// when the pattern has no upper-case letter.
    pub fn is_case_insensitive(&self) -> (b: bool)
        ensures
            b == ignores_case(self.case_mode, self.pattern@),
    {
        match self.case_mode {
            CaseMode::Insensitive => true,
            CaseMode::Sensitive => false,
            CaseMode::Smart => !pattern_has_uppercase(self.pattern.as_str()),
        }
    }

    /// Compiles the effective pattern with the case setting; a pattern that
    /// does not compile gives a message naming it.
    pub fn build_matcher(&self) -> (r: Result<NameMatcher, String>)
        requires
            utf8_len(self.pattern@) + 2 < MAX_PATTERN_BYTES,
        ensures
            match r {
                Ok(m) => m.pattern() == normalized(self.pattern@, self.exact) && m.ignores_case()
                    == ignores_case(self.case_mode, self.pattern@) && glob_compiles(
                    m.pattern(),
                    m.ignores_case(),
                ),
                Err(msg) => !glob_compiles(
                    normalized(self.pattern@, self.exact),
                    ignores_case(self.case_mode, self.pattern@),
                ) && msg@ == invalid_pattern_message(
                    normalized(self.pattern@, self.exact),
                    ignores_case(self.case_mode, self.pattern@),
                ),
            },
    {
        let pattern = self.effective_pattern();
        let case_insensitive = self.is_case_insensitive();
        proof {
            lemma_normalized_bytes(self.pattern@, self.exact);
        }
        match compile_glob(pattern.as_str(), case_insensitive) {
            Ok(matcher) => Ok(NameMatcher { matcher, pattern, case_insensitive }),
            Err(e) => {
                let head = concat3("Invalid glob pattern '", pattern.as_str(), "': ");
                Err(concat2(head.as_str(), e.as_str()))
            },
        }
    }
}

/// A single search hit.
#[derive(Debug, Clone)]
pub struct SearchHit {
    pub path: String,
    pub is_dir: bool,
}

/// The most hits a search collects: the limit, or no bound when it is zero.
pub open spec fn hit_bound(limit: usize) -> usize {
    if limit == 0 {
        usize::MAX
    } else {
        limit
    }
}

/// The most hits a search collects.
pub fn search_bound(limit: usize) -> (n: usize)
    ensures
        n == hit_bound(limit),
{
    if limit == 0 {
        usize::MAX
    } else {
        limit
    }
}

/// Whether a walked entry is a hit: it is not the root itself, it passes the
/// type filter, and its name matches the pattern.
pub open spec fn is_hit(
    root: Seq<char>,
    entry_type: SearchType,
    m: NameMatcher,
    path: Seq<char>,
    name: Seq<char>,
    is_dir: bool,
) -> bool {
    &&& !same_path(path, root)
    &&& type_matches(entry_type, is_dir)
    &&& glob_matches(m.pattern(), m.ignores_case(), name)
}

/// Takes one entry of the walk: records it when it is a hit, and says
/// whether the walk goes on (it stops once `bound` hits are in).
pub fn take_entry(
    opts: &SearchOptions,
    matcher: &NameMatcher,
    bound: usize,
    hits: &mut Vec<SearchHit>,
    path: &str,
    name: &str,
    is_dir: bool,
) -> (go_on: bool)
    requires
        old(hits)@.len() < bound,
    ensures
        is_hit(opts.root@, opts.entry_type, *matcher, path@, name@, is_dir) ==> {
            &&& final(hits)@.len() == old(hits)@.len() + 1
            &&& final(hits)@.take(old(hits)@.len() as int) == old(hits)@
            &&& final(hits)@.last().path@ == path@
            &&& final(hits)@.last().is_dir == is_dir
        },
        !is_hit(opts.root@, opts.entry_type, *matcher, path@, name@, is_dir) ==> final(hits)@
            == old(hits)@,
        go_on == (final(hits)@.len() < bound),
        final(hits)@.len() <= bound,
{
    if paths_equal(path, opts.root.as_str()) {
        return true;
    }
    if !entry_type_matches(opts.entry_type, is_dir) {
        return true;
    }
    if !matcher.is_match(name) {
        return true;
    }
    let ghost before = hits@;
    hits.push(SearchHit { path: owned(path), is_dir });
    assert(hits@.take(before.len() as int) =~= before);
    hits.len() < bound
}

/// A path as shown in results: relative to the root as `./rel` when it
/// lies under it, otherwise as it is.
pub open spec fn pretty_path(path: Seq<char>, root: Seq<char>) -> Seq<char> {
    match path_strip_prefix(path, root) {
        Some(rel) => "./"@ + rel,
        None => path,
    }
}

/// Formats a path relative to the root if possible, otherwise as it is.
pub fn prettify_path(path: &str, root: &str) -> (r: String)
    ensures
        r@ == pretty_path(path@, root@),
{
    match strip_prefix_of(path, root) {
        Some(rel) => concat2("./", rel.as_str()),
        None => owned(path),
    }
}

/// The search root itself is never a hit, whatever its name and type.
pub proof fn lemma_root_is_no_hit(
    root: Seq<char>,
    entry_type: SearchType,
    m: NameMatcher,
    name: Seq<char>,
    is_dir: bool,
)
    ensures
        !is_hit(root, entry_type, m, root, name, is_dir),
{
}

} // verus!
