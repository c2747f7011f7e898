//! Dotfiles symlink integrity and mode-bit drift. The caller looks at the
//! disk (whether the repository source exists, what stands at the link's
//! place, where a link points, the source's mode bits, and the mode git
//! records for it) and hands over what it saw; these functions classify each
//! link and build the sorted list of records.
use crate::order::{is_permutation, lemma_stable_order_unique, sort_order, sorted_by, ties_in_order};
use crate::paths::{join_path, parent_of, path_join, path_parent};
use crate::table::StrMap;
use crate::text::{
    chars_of, concat2, concat3, ends_with_seq, first_word, first_word_from, octal, octal_string,
    owned, str_ends_with,
};
use crate::drift::git_shell::{lines_seq, split_lines};
use vstd::prelude::*;

verus! {

/// Status classification of a configured symlink pair.
#[derive(Debug, Clone, PartialEq, Eq)]
pub enum LinkStatus {
    /// The link exists, points to the source, and the mode bits agree.
    Valid,
    /// The link points to the source, but its permission bits differ from
    /// what git records or what security rules ask.
    PermissionDrift { expected_mode: u32, actual_mode: u32 },
    /// The link exists but points elsewhere.
    Broken { actual_destination: String },
    /// An ordinary file or directory stands where the link should be.
    ReplacedByRealFile,
    /// Nothing stands where the link should be.
    Missing,
    /// The source does not exist in the dotfiles repository.
    MissingSource,
}

/// The display text of a status.
pub open spec fn status_text(s: LinkStatus) -> Seq<char> {
    match s {
        LinkStatus::Valid => "VALID"@,
        LinkStatus::PermissionDrift { expected_mode, actual_mode } => "MODE DRIFT ("@ + octal(
            expected_mode as nat,
        ) + " vs "@ + octal(actual_mode as nat) + ")"@,
        LinkStatus::Broken { actual_destination } => "BROKEN (points to "@ + actual_destination@
            + ")"@,
        LinkStatus::ReplacedByRealFile => "REPLACED BY FILE"@,
        LinkStatus::Missing => "MISSING LINK"@,
        LinkStatus::MissingSource => "SOURCE MISSING IN REPO"@,
    }
}

impl LinkStatus {
    /// The display text of the status, such as `MODE DRIFT (600 vs 666)`.
    pub fn label(&self) -> (r: String)
        ensures
            r@ == status_text(*self),
    {
        match self {
            LinkStatus::Valid => owned("VALID"),
            LinkStatus::PermissionDrift { expected_mode, actual_mode } => {
                let e = octal_string(*expected_mode);
                let a = octal_string(*actual_mode);
                let head = concat3("MODE DRIFT (", e.as_str(), " vs ");
                concat3(head.as_str(), a.as_str(), ")")
            },
            LinkStatus::Broken { actual_destination } => concat3(
                "BROKEN (points to ",
                actual_destination.as_str(),
                ")",
            ),
            LinkStatus::ReplacedByRealFile => owned("REPLACED BY FILE"),
            LinkStatus::Missing => owned("MISSING LINK"),
            LinkStatus::MissingSource => owned("SOURCE MISSING IN REPO"),
        }
    }
}

/// Verification record for a single mapped symlink pair.
#[derive(Debug, Clone, PartialEq, Eq)]
pub struct LinkRecord {
    pub source_rel: String,
    pub target_rel: String,
    pub expected_source: String,
    pub target_path: String,
    pub status: LinkStatus,
}

/// What stands at a link's place.
#[derive(Debug)]
pub enum TargetState {
    /// Nothing, or nothing whose metadata could be read.
    Missing,
    /// An ordinary file or directory.
    RealFile,
    /// A symlink whose destination could not be read.
    UnreadableLink,
    /// A symlink to `destination` (as it is stored); `resolves_to_source`
    /// tells whether it leads to the expected source once both paths are
    /// made canonical.
    Link { destination: String, resolves_to_source: bool },
}

/// The mode bits of a link's source: those on disk (none where its metadata
/// could not be read) and those that git records for it (none where git
/// records none).
#[derive(Debug)]
pub struct SourceModes {
    pub source_mode: Option<u32>,
    pub git_mode: Option<u32>,
}

/// What the caller saw of one link. The modes are read only for a link that
/// leads to its existing source.
#[derive(Debug)]
pub struct LinkProbe {
    pub source_exists: bool,
    pub target: TargetState,
    pub modes: Option<SourceModes>,
}

/// Whether the mode bits decide a link's status: its source exists and the
/// link leads to it.
pub open spec fn needs_mode_check(source_exists: bool, target: TargetState) -> bool {
    source_exists && (target matches TargetState::Link { resolves_to_source, .. } && resolves_to_source)
}

/// Whether a probe holds everything its link's status depends on.
pub open spec fn probe_complete(p: LinkProbe) -> bool {
    needs_mode_check(p.source_exists, p.target) ==> p.modes is Some
}

/// Whether the mode bits of a link's source must be read.
pub fn mode_check_needed(source_exists: bool, target: &TargetState) -> (b: bool)
    ensures
        b == needs_mode_check(source_exists, *target),
{
    source_exists && match target {
        TargetState::Link { resolves_to_source, .. } => *resolves_to_source,
        _ => false,
    }
}

/// The permission bits of the source on disk: its mode's low nine bits, or
/// none where its metadata could not be read.
pub open spec fn disk_permissions(source_mode: Option<u32>) -> u32 {
    match source_mode {
        Some(m) => m & 0o777,
        None => 0,
    }
}

/// The status that the mode bits give a link that leads to its source: an
/// ssh config that group or others may write must be `600`; otherwise the
/// execute bits must agree with those that git records.
pub open spec fn mode_status(source_rel: Seq<char>, disk: u32, git_mode: Option<u32>) -> LinkStatus {
    if ends_with_seq(source_rel, "ssh/config"@) && disk & 0o022 != 0 {
        LinkStatus::PermissionDrift { expected_mode: 0o600, actual_mode: disk }
    } else {
        match git_mode {
            Some(g) => if (g & 0o777) & 0o111 != disk & 0o111 {
                LinkStatus::PermissionDrift { expected_mode: g & 0o777, actual_mode: disk }
            } else {
                LinkStatus::Valid
            },
            None => LinkStatus::Valid,
        }
    }
}

/// Checks mode drift of a source against security rules and the mode that
/// git records.
pub fn check_mode_drift(source_rel: &str, source_mode: Option<u32>, git_mode: Option<u32>) -> (s: LinkStatus)
    ensures
        s == mode_status(source_rel@, disk_permissions(source_mode), git_mode),
{
    let disk = match source_mode {
        Some(m) => m & 0o777,
        None => 0,
    };
    if str_ends_with(source_rel, "ssh/config") && disk & 0o022 != 0 {
        return LinkStatus::PermissionDrift { expected_mode: 0o600, actual_mode: disk };
    }
    match git_mode {
        Some(g) => {
            let git_perm = g & 0o777;
            if git_perm & 0o111 != disk & 0o111 {
                LinkStatus::PermissionDrift { expected_mode: git_perm, actual_mode: disk }
            } else {
                LinkStatus::Valid
            }
        },
        None => LinkStatus::Valid,
    }
}

/// Whether `s` is the status that a link with this probe gets.
pub open spec fn is_link_status(s: LinkStatus, source_rel: Seq<char>, p: LinkProbe) -> bool {
    if !p.source_exists {
        s is MissingSource
    } else {
        match p.target {
            TargetState::Missing => s is Missing,
            TargetState::RealFile => s is ReplacedByRealFile,
            TargetState::UnreadableLink => s matches LinkStatus::Broken { actual_destination }
                && actual_destination@ == "<unreadable>"@,
            TargetState::Link { destination, resolves_to_source } => if resolves_to_source {
                match p.modes {
                    Some(m) => s == mode_status(
                        source_rel,
                        disk_permissions(m.source_mode),
                        m.git_mode,
                    ),
                    None => false,
                }
            } else {
                s matches LinkStatus::Broken { actual_destination } && actual_destination@
                    == destination@
            },
        }
    }
}

/// Evaluates one link: a missing source, a missing link, a real file in its
/// place, or a link that leads elsewhere decide at once; a link that leads to
/// its source is judged by its mode bits.
pub fn evaluate_link(source_rel: &str, probe: &LinkProbe) -> (s: LinkStatus)
    requires
        probe_complete(*probe),
    ensures
        is_link_status(s, source_rel@, *probe),
{
    if !probe.source_exists {
        return LinkStatus::MissingSource;
    }
    match &probe.target {
        TargetState::Missing => LinkStatus::Missing,
        TargetState::RealFile => LinkStatus::ReplacedByRealFile,
        TargetState::UnreadableLink => LinkStatus::Broken { actual_destination: owned("<unreadable>") },
        TargetState::Link { destination, resolves_to_source } => {
            if *resolves_to_source {
                match &probe.modes {
                    Some(m) => check_mode_drift(source_rel, m.source_mode, m.git_mode),
                    None => LinkStatus::Missing,
                }
            } else {
                LinkStatus::Broken { actual_destination: destination.clone() }
            }
        },
    }
}

/// The path a link leads to: an absolute destination as it is; a relative
/// one taken from the link's directory.
pub open spec fn link_destination(target_path: Seq<char>, destination: Seq<char>) -> Seq<char> {
    if destination.len() > 0 && destination[0] == '/' {
        destination
    } else {
        match path_parent(target_path) {
            Some(parent) => path_join(parent, destination),
            None => destination,
        }
    }
}

/// The path that the link at `target_path`, storing `destination`, leads to
/// before it is made canonical.
pub fn resolve_link_destination(target_path: &str, destination: &str) -> (r: String)
    ensures
        r@ == link_destination(target_path@, destination@),
{
    let d = chars_of(destination);
    if d.len() > 0 && d[0] == '/' {
        return owned(destination);
    }
    match parent_of(target_path) {
        Some(parent) => join_path(parent.as_str(), destination),
        None => owned(destination),
    }
}

/// Whether `c` is an octal digit.
pub open spec fn is_octal_digit(c: char) -> bool {
    '0' <= c && c <= '7'
}

/// The value of a string of octal digits.
pub open spec fn octal_value(ds: Seq<char>) -> nat
    decreases ds.len(),
{
    if ds.len() == 0 {
        0
    } else {
        octal_value(ds.drop_last()) * 8 + (ds.last() as nat - '0' as nat) as nat
    }
}

/// The digits of an unsigned number: `w` without one leading `+`.
pub open spec fn unsigned_digits(w: Seq<char>) -> Seq<char> {
    if w.len() > 0 && w[0] == '+' {
        w.drop_first()
    } else {
        w
    }
}

/// Whether every character of `ds` is an octal digit.
pub open spec fn all_octal(ds: Seq<char>) -> bool {
    forall|i: int| 0 <= i < ds.len() ==> is_octal_digit(#[trigger] ds[i])
}

/// An unsigned integer in base eight, as `u32::from_str_radix(w, 8)` reads
/// it: an optional `+`, then one or more octal digits whose value fits.
pub open spec fn parse_octal(w: Seq<char>) -> Option<u32> {
    let ds = unsigned_digits(w);
    if ds.len() > 0 && all_octal(ds) && octal_value(ds) <= u32::MAX {
        Some(octal_value(ds) as u32)
    } else {
        None
    }
}

/// The mode that `git ls-files --stage` prints first: the first word of its
/// first line, read in base eight.
pub open spec fn git_stage_mode(out: Seq<char>) -> Option<u32> {
    let ls = lines_seq(out);
    if ls.len() == 0 {
        None
    } else {
        match first_word(ls[0]) {
            Some(w) => parse_octal(w),
            None => None,
        }
    }
}

/// The value of a prefix of octal digits never exceeds that of the whole.
proof fn lemma_octal_prefix(ds: Seq<char>, j: int)
    requires
        0 <= j <= ds.len(),
        all_octal(ds),
    ensures
        octal_value(ds.take(j)) <= octal_value(ds),
    decreases ds.len() - j,
{
    if j < ds.len() {
        lemma_octal_prefix(ds, j + 1);
        assert(ds.take(j + 1).drop_last() =~= ds.take(j));
    } else {
        assert(ds.take(j) =~= ds);
    }
}

/// Reads `w` in base eight, as `u32::from_str_radix(w, 8)` does.
pub fn parse_octal_word(w: &str) -> (r: Option<u32>)
    ensures
        r == parse_octal(w@),
{
    let v = chars_of(w);
    let start: usize = if v.len() > 0 && v[0] == '+' {
        1
    } else {
        0
    };
    let ghost ds = unsigned_digits(w@);
    assert(ds =~= v@.skip(start as int));
    if start == v.len() {
        return None;
    }
    let mut acc: u64 = 0;
    let mut i: usize = start;
    while i < v.len()
        invariant
            start <= i <= v.len(),
            v@ == w@,
            ds == unsigned_digits(w@),
            ds == v@.skip(start as int),
            ds.len() == v.len() - start,
            acc == octal_value(ds.take(i - start)),
            acc <= u32::MAX,
            forall|k: int| 0 <= k < i - start ==> is_octal_digit(#[trigger] ds[k]),
        decreases v.len() - i,
    {
        let c = v[i];
        assert(ds[i - start] == c);
        if !('0' <= c && c <= '7') {
            assert(!is_octal_digit(ds[i - start]));
            return None;
        }
        let d: u64 = ((c as u32) - ('0' as u32)) as u64;
        assert(ds.take(i - start + 1).drop_last() =~= ds.take(i - start));
        let next = acc * 8 + d;
        if next > 0xffff_ffff {
            proof {
                assert(octal_value(ds.take(i - start + 1)) == next);
                if all_octal(ds) {
                    lemma_octal_prefix(ds, i - start + 1);
                }
            }
            return None;
        }
        acc = next;
        i = i + 1;
    }
    assert(ds.take(ds.len() as int) =~= ds);
    Some(acc as u32)
}

/// Reads the mode that `git ls-files --stage` printed for one path: the
/// first word of the first line, in base eight.
pub fn parse_git_stage_mode(stdout: &str) -> (r: Option<u32>)
    ensures
        r == git_stage_mode(stdout@),
{
    let text = chars_of(stdout);
    let ls = split_lines(&text);
    if ls.len() == 0 {
        return None;
    }
    let first = &ls[0];
    assert(first@ =~= first@.skip(0));
    match first_word_from(first, 0) {
        Some(w) => parse_octal_word(w.as_str()),
        None => None,
    }
}

/// Whether `r` is the record of the link from `source_rel` (in the dotfiles
/// directory) to `target_rel` (in the home directory) with this probe.
pub open spec fn is_link_record(
    r: LinkRecord,
    dotfiles_dir: Seq<char>,
    home_dir: Seq<char>,
    source_rel: Seq<char>,
    target_rel: Seq<char>,
    p: LinkProbe,
) -> bool {
    &&& r.source_rel@ == source_rel
    &&& r.target_rel@ == target_rel
    &&& r.expected_source@ == path_join(dotfiles_dir, source_rel)
    &&& r.target_path@ == path_join(home_dir, target_rel)
    &&& is_link_status(r.status, source_rel, p)
}

/// The targets of the links, in the order of the map's entries.
pub open spec fn link_targets(links: StrMap<String>) -> Seq<Seq<char>> {
    links.value_order().map_values(|v: String| v@)
}

/// Whether `records` lists every link once, ordered by target path (links
/// with the same target in the order of the map's entries), each with the
/// status its probe gives it.
pub open spec fn records_of_links(
    records: Seq<LinkRecord>,
    dotfiles_dir: Seq<char>,
    home_dir: Seq<char>,
    links: StrMap<String>,
    probes: Seq<LinkProbe>,
) -> bool {
    exists|perm: Seq<usize>|
        {
            &&& is_permutation(perm, links.key_order().len())
            &&& forall|j: int| 0 <= j < links.key_order().len() ==> #[trigger] perm.contains(j as usize)
            &&& sorted_by(link_targets(links), perm)
            &&& ties_in_order(link_targets(links), perm)
            &&& records.len() == perm.len()
            &&& forall|k: int|
                0 <= k < records.len() ==> is_link_record(
                    #[trigger] records[k],
                    dotfiles_dir,
                    home_dir,
                    links.key_order()[perm[k] as int],
                    links.value_order()[perm[k] as int]@,
                    probes[perm[k] as int],
                )
        }
}

/// Verifies all configured links (source in the dotfiles directory, target
/// in the home directory), given what was seen of each (the probes follow
/// the order of the map's entries), and lists the records by target path.
pub fn verify_symlinks(dotfiles_dir: &str, home_dir: &str, links: &StrMap<String>, probes: &Vec<LinkProbe>) -> (records: Vec<LinkRecord>)
    requires
        probes@.len() == links.key_order().len(),
        forall|i: int| 0 <= i < probes@.len() ==> probe_complete(#[trigger] probes@[i]),
    ensures
        records@.len() == links.key_order().len(),
        records_of_links(records@, dotfiles_dir@, home_dir@, *links, probes@),
{
    let n = links.len();
    let mut targets: Vec<String> = Vec::new();
    let mut i: usize = 0;
    while i < n
        invariant
            i <= n,
            n == links.key_order().len(),
            links.value_order().len() == n,
            targets@.len() == i,
            forall|t: int| 0 <= t < i ==> #[trigger] targets@[t]@ == links.value_order()[t]@,
        decreases n - i,
    {
        targets.push(links.value_at(i).clone());
        i = i + 1;
    }
    let perm = sort_order(&targets);
    assert(targets@.map_values(|k: String| k@) =~= link_targets(*links));
    let mut records: Vec<LinkRecord> = Vec::new();
    let mut q: usize = 0;
    while q < n
        invariant
            q <= n,
            n == links.key_order().len(),
            links.value_order().len() == n,
            probes@.len() == n,
            forall|t: int| 0 <= t < probes@.len() ==> probe_complete(#[trigger] probes@[t]),
            perm@.len() == n,
            forall|t: int| 0 <= t < n ==> #[trigger] perm@[t] < n,
            records@.len() == q,
            forall|k: int|
                0 <= k < q ==> is_link_record(
                    #[trigger] records@[k],
                    dotfiles_dir@,
                    home_dir@,
                    links.key_order()[perm@[k] as int],
                    links.value_order()[perm@[k] as int]@,
                    probes@[perm@[k] as int],
                ),
        decreases n - q,
    {
        let j = perm[q];
        let source_rel = links.key_at(j);
        let target_rel = links.value_at(j);
        let status = evaluate_link(source_rel.as_str(), &probes[j]);
        let record = LinkRecord {
            source_rel: source_rel.clone(),
            target_rel: target_rel.clone(),
            expected_source: join_path(dotfiles_dir, source_rel.as_str()),
            target_path: join_path(home_dir, target_rel.as_str()),
            status,
        };
        records.push(record);
        q = q + 1;
    }
    assert(is_permutation(perm@, links.key_order().len()));
    assert(sorted_by(link_targets(*links), perm@));
    assert(ties_in_order(link_targets(*links), perm@));
    records
}

/// Whether two statuses are the same, their texts compared by view.
pub open spec fn same_status(a: LinkStatus, b: LinkStatus) -> bool {
    match (a, b) {
        (LinkStatus::Valid, LinkStatus::Valid) => true,
        (
            LinkStatus::PermissionDrift { expected_mode: e1, actual_mode: a1 },
            LinkStatus::PermissionDrift { expected_mode: e2, actual_mode: a2 },
        ) => e1 == e2 && a1 == a2,
        (LinkStatus::Broken { actual_destination: d1 }, LinkStatus::Broken { actual_destination: d2 }) => d1@
            == d2@,
        (LinkStatus::ReplacedByRealFile, LinkStatus::ReplacedByRealFile) => true,
        (LinkStatus::Missing, LinkStatus::Missing) => true,
        (LinkStatus::MissingSource, LinkStatus::MissingSource) => true,
        _ => false,
    }
}

/// Whether two records are the same, their texts compared by view.
pub open spec fn same_record(a: LinkRecord, b: LinkRecord) -> bool {
    &&& a.source_rel@ == b.source_rel@
    &&& a.target_rel@ == b.target_rel@
    &&& a.expected_source@ == b.expected_source@
    &&& a.target_path@ == b.target_path@
    &&& same_status(a.status, b.status)
}

/// The records of a set of links are determined by the links and what was
/// seen of each: two lists that both meet `records_of_links` (what
/// `verify_symlinks` returns, and what `audit_drift` reports) agree entry by
/// entry, so an audit's records are those of a separate check of the links.
pub proof fn lemma_link_records_determined(
    r1: Seq<LinkRecord>,
    r2: Seq<LinkRecord>,
    dotfiles_dir: Seq<char>,
    home_dir: Seq<char>,
    links: StrMap<String>,
    probes: Seq<LinkProbe>,
)
    requires
        records_of_links(r1, dotfiles_dir, home_dir, links, probes),
        records_of_links(r2, dotfiles_dir, home_dir, links, probes),
    ensures
        r1.len() == r2.len(),
        forall|k: int| 0 <= k < r1.len() ==> same_record(#[trigger] r1[k], r2[k]),
{
    let n = links.key_order().len();
    let keys = link_targets(links);
    let p1 = choose|perm: Seq<usize>|
        {
            &&& is_permutation(perm, n)
            &&& forall|j: int| 0 <= j < n ==> #[trigger] perm.contains(j as usize)
            &&& sorted_by(keys, perm)
            &&& ties_in_order(keys, perm)
            &&& r1.len() == perm.len()
            &&& forall|k: int|
                0 <= k < r1.len() ==> is_link_record(
                    #[trigger] r1[k],
                    dotfiles_dir,
                    home_dir,
                    links.key_order()[perm[k] as int],
                    links.value_order()[perm[k] as int]@,
                    probes[perm[k] as int],
                )
        };
    let p2 = choose|perm: Seq<usize>|
        {
            &&& is_permutation(perm, n)
            &&& forall|j: int| 0 <= j < n ==> #[trigger] perm.contains(j as usize)
            &&& sorted_by(keys, perm)
            &&& ties_in_order(keys, perm)
            &&& r2.len() == perm.len()
            &&& forall|k: int|
                0 <= k < r2.len() ==> is_link_record(
                    #[trigger] r2[k],
                    dotfiles_dir,
                    home_dir,
                    links.key_order()[perm[k] as int],
                    links.value_order()[perm[k] as int]@,
                    probes[perm[k] as int],
                )
        };
    links.lemma_orders_match();
    lemma_stable_order_unique(keys, p1, p2);
    assert forall|k: int| 0 <= k < r1.len() implies same_record(#[trigger] r1[k], r2[k]) by {
        let s1 = r1[k].status;
        let s2 = r2[k].status;
        assert(is_link_record(
            r2[k],
            dotfiles_dir,
            home_dir,
            links.key_order()[p1[k] as int],
            links.value_order()[p1[k] as int]@,
            probes[p1[k] as int],
        ));
    }
}

/// An ssh config that its group or others may write drifts: whenever the
/// group-write bit or the other-write bit of its mode is set, its status is
/// a mode drift that expects `600` and reports its permission bits; with
/// neither bit set and no mode recorded by git, it is valid.
pub proof fn lemma_ssh_config_not_shared_writable(source_rel: Seq<char>, mode: u32, git_mode: Option<u32>)
    requires
        ends_with_seq(source_rel, "ssh/config"@),
    ensures
        (mode & 0o020 != 0 || mode & 0o002 != 0) ==> mode_status(
            source_rel,
            disk_permissions(Some(mode)),
            git_mode,
        ) == (LinkStatus::PermissionDrift { expected_mode: 0o600, actual_mode: mode & 0o777 }),
        (mode & 0o020 == 0 && mode & 0o002 == 0 && git_mode is None) ==> mode_status(
            source_rel,
            disk_permissions(Some(mode)),
            git_mode,
        ) == LinkStatus::Valid,
{
    assert(((mode & 0o777) & 0o022 != 0) == (mode & 0o020 != 0 || mode & 0o002 != 0)) by (bit_vector);
}

/// For any other source, the mode drifts exactly when its execute bits
/// differ from those that git records, and the drift reports git's
/// permission bits and those on disk.
pub proof fn lemma_exec_bits_follow_git(source_rel: Seq<char>, mode: u32, git: u32)
    requires
        !ends_with_seq(source_rel, "ssh/config"@),
    ensures
        mode_status(source_rel, disk_permissions(Some(mode)), Some(git)) == (if git & 0o111 != mode
            & 0o111 {
            LinkStatus::PermissionDrift { expected_mode: git & 0o777, actual_mode: mode & 0o777 }
        } else {
            LinkStatus::Valid
        }),
{
    assert(((git & 0o777) & 0o111 != (mode & 0o777) & 0o111) == (git & 0o111 != mode & 0o111))
        by (bit_vector);
}

} // verus!
