//! Deletion bookkeeping for selected cleanup targets. The file system work
//! (removing trees and files, vacuuming the journal) is done by the caller,
//! target by target, as `plan_deletion` says, and reports how each went;
//! `execute_deletions_with` then accounts for what happened: targets skipped for want of privilege, targets
//! deleted, bytes reclaimed, and failures.
use crate::clean::classifier::CleanTarget;
use crate::paths::{paths_equal, same_path};
use crate::text::owned;
use vstd::prelude::*;

verus! {

/// Result summary of a clean run.
#[derive(Debug)]
pub struct DeletionSummary {
    pub deleted_targets: usize,
    pub reclaimed_bytes: u64,
    pub skipped_privilege: Vec<CleanTarget>,
    pub failures: Vec<(String, String)>,
}

/// What to do with one target.
#[derive(Debug, Clone, Copy, PartialEq, Eq, Structural)]
pub enum DeletionPlan {
    /// Leave it: it needs root and the process is not elevated.
    SkipForPrivilege,
    /// Remove its whole directory tree.
    RemoveTree,
    /// Remove each of its listed files.
    RemoveFiles,
    /// Vacuum the systemd journal (the target is `/var/log/journal`).
    VacuumJournal,
    /// Remove its path, a file or a directory tree.
    RemovePath,
}

/// How removing one path went.
#[derive(Debug)]
pub enum RemovalOutcome {
    Removed,
    Missing,
    Failed(String),
}

/// How removing one listed file went.
#[derive(Debug)]
pub enum FileOutcome {
    /// Removed; it had this many bytes.
    Removed { bytes: u64 },
    Missing,
    Failed(String),
}

/// How one target went.
#[derive(Debug)]
pub enum TargetOutcome {
    Skipped,
    Tree(RemovalOutcome),
    Files(Vec<FileOutcome>),
    Path(RemovalOutcome),
}

/// The directory of the systemd journal, which is vacuumed rather than
/// removed.
pub open spec fn journal_path() -> Seq<char> {
    "/var/log/journal"@
}

/// The plan for a target, given whether the process is elevated and whether
/// its path is the journal directory.
pub open spec fn spec_plan(t: CleanTarget, elevated: bool, is_journal: bool) -> DeletionPlan {
    if t.requires_elevation && !elevated {
        DeletionPlan::SkipForPrivilege
    } else if t.is_tree {
        DeletionPlan::RemoveTree
    } else if t.files@.len() > 0 {
        DeletionPlan::RemoveFiles
    } else if is_journal {
        DeletionPlan::VacuumJournal
    } else {
        DeletionPlan::RemovePath
    }
}

/// Whether an outcome is of the kind that a plan calls for.
pub open spec fn outcome_fits(t: CleanTarget, o: TargetOutcome, elevated: bool) -> bool {
    match o {
        TargetOutcome::Skipped => t.requires_elevation && !elevated,
        TargetOutcome::Tree(_) => !(t.requires_elevation && !elevated) && t.is_tree,
        TargetOutcome::Files(fos) => !(t.requires_elevation && !elevated) && !t.is_tree
            && t.files@.len() > 0 && fos@.len() == t.files@.len(),
        TargetOutcome::Path(_) => !(t.requires_elevation && !elevated) && !t.is_tree
            && t.files@.len() == 0,
    }
}

/// The failures recorded for the listed files, in order: a missing file and a
/// file that could not be removed each count.
pub open spec fn file_failures(files: Seq<String>, fos: Seq<FileOutcome>) -> Seq<(Seq<char>, Seq<char>)>
    decreases fos.len(),
{
    if fos.len() == 0 {
        Seq::empty()
    } else {
        let prev = file_failures(files, fos.drop_last());
        let f = files[fos.len() - 1]@;
        match fos.last() {
            FileOutcome::Removed { .. } => prev,
            FileOutcome::Missing => prev.push((f, "File does not exist"@)),
            FileOutcome::Failed(m) => prev.push((f, m@)),
        }
    }
}

/// The bytes of the files that were removed.
pub open spec fn file_bytes(fos: Seq<FileOutcome>) -> nat
    decreases fos.len(),
{
    if fos.len() == 0 {
        0
    } else {
        file_bytes(fos.drop_last()) + match fos.last() {
            FileOutcome::Removed { bytes } => bytes as nat,
            _ => 0,
        }
    }
}

/// The account of a run after the given targets and outcomes: targets
/// deleted, bytes reclaimed, targets skipped for privilege, and failures.
pub open spec fn summary_of(ts: Seq<CleanTarget>, os: Seq<TargetOutcome>) -> (
    nat,
    nat,
    Seq<CleanTarget>,
    Seq<(Seq<char>, Seq<char>)>,
)
    decreases os.len(),
{
    if os.len() == 0 {
        (0, 0, Seq::empty(), Seq::empty())
    } else {
        let (d, b, s, f) = summary_of(ts, os.drop_last());
        let t = ts[os.len() - 1];
        match os.last() {
            TargetOutcome::Skipped => (d, b, s.push(t), f),
            TargetOutcome::Tree(RemovalOutcome::Removed) => (d + 1, b + t.size_bytes as nat, s, f),
            TargetOutcome::Tree(RemovalOutcome::Missing) => (
                d,
                b,
                s,
                f.push((t.path@, "Target directory does not exist"@)),
            ),
            TargetOutcome::Tree(RemovalOutcome::Failed(m)) => (d, b, s, f.push((t.path@, m@))),
            TargetOutcome::Files(fos) => {
                let gained = file_bytes(fos@);
                let fails = file_failures(t.files@, fos@);
                let kept = if fails.len() <= 3 {
                    fails
                } else {
                    fails.take(3)
                };
                if gained > 0 {
                    (d + 1, b + gained, s, f + kept)
                } else {
                    (d, b, s, f + kept)
                }
            },
            TargetOutcome::Path(RemovalOutcome::Removed) => (d + 1, b + t.size_bytes as nat, s, f),
            TargetOutcome::Path(RemovalOutcome::Missing) => (
                d,
                b,
                s,
                f.push((t.path@, "Target path does not exist"@)),
            ),
            TargetOutcome::Path(RemovalOutcome::Failed(m)) => (d, b, s, f.push((t.path@, m@))),
        }
    }
}

/// The failures of a summary, as characters.
pub open spec fn failures_view(f: Seq<(String, String)>) -> Seq<(Seq<char>, Seq<char>)> {
    f.map_values(|p: (String, String)| (p.0@, p.1@))
}

/// Decides what to do with a target: skip it when it needs root and the
/// process is not elevated; else remove its tree, or its listed files, or
/// vacuum the journal when its path is `/var/log/journal`, or remove its path.
pub fn plan_deletion(target: &CleanTarget, elevated: bool) -> (p: DeletionPlan)
    ensures
        p == spec_plan(*target, elevated, same_path(target.path@, journal_path())),
{
    if target.requires_elevation && !elevated {
        DeletionPlan::SkipForPrivilege
    } else if target.is_tree {
        DeletionPlan::RemoveTree
    } else if target.files.len() > 0 {
        DeletionPlan::RemoveFiles
    } else if paths_equal(target.path.as_str(), "/var/log/journal") {
        DeletionPlan::VacuumJournal
    } else {
        DeletionPlan::RemovePath
    }
}

/// Accounts for one target's listed files: the failures (at most three are
/// kept) and the bytes removed.
fn account_files(files: &Vec<String>, fos: &Vec<FileOutcome>, failures: &mut Vec<(String, String)>) -> (gained: u64)
    requires
        fos@.len() == files@.len(),
        file_bytes(fos@) <= u64::MAX,
    ensures
        gained == file_bytes(fos@),
        failures_view(final(failures)@) == failures_view(old(failures)@) + (if file_failures(
            files@,
            fos@,
        ).len() <= 3 {
            file_failures(files@, fos@)
        } else {
            file_failures(files@, fos@).take(3)
        }),
{
    let ghost start = failures_view(failures@);
    let mut count: usize = 0;
    let mut gained: u64 = 0;
    let mut j: usize = 0;
    while j < fos.len()
        invariant
            j <= fos@.len(),
            fos@.len() == files@.len(),
            file_bytes(fos@) <= u64::MAX,
            gained == file_bytes(fos@.take(j as int)),
            count <= j,
            count == file_failures(files@, fos@.take(j as int)).len(),
            failures_view(failures@) == start + (if count <= 3 {
                file_failures(files@, fos@.take(j as int))
            } else {
                file_failures(files@, fos@.take(j as int)).take(3)
            }),
        decreases fos@.len() - j,
    {
        let ghost pre = fos@.take(j as int);
        let ghost post = fos@.take(j + 1);
        assert(post.drop_last() =~= pre);
        proof {
            lemma_file_bytes_prefix(fos@, j + 1);
        }
        let ghost before = failures_view(failures@);
        match &fos[j] {
            FileOutcome::Removed { bytes } => {
                gained = gained + *bytes;
            },
            FileOutcome::Missing => {
                count = count + 1;
                if count <= 3 {
                    failures.push((files[j].clone(), owned("File does not exist")));
                }
            },
            FileOutcome::Failed(msg) => {
                count = count + 1;
                if count <= 3 {
                    failures.push((files[j].clone(), msg.clone()));
                }
            },
        }
        proof {
            let ff = file_failures(files@, post);
            let fp = file_failures(files@, pre);
            assert(failures_view(failures@) =~= start + (if count <= 3 {
                ff
            } else {
                ff.take(3)
            })) by {
                if ff.len() > fp.len() {
                    if count <= 3 {
                        assert(failures_view(failures@) =~= before.push(ff.last()));
                    } else if count == 4 {
                        assert(fp.take(3) =~= fp);
                        assert(ff.take(3) =~= fp);
                    } else {
                        assert(ff.take(3) =~= fp.take(3));
                    }
                }
            }
        }
        j = j + 1;
    }
    assert(fos@.take(fos@.len() as int) =~= fos@);
    gained
}

/// The bytes of a prefix never exceed those of the whole.
proof fn lemma_file_bytes_prefix(fos: Seq<FileOutcome>, j: int)
    requires
        0 <= j <= fos.len(),
    ensures
        file_bytes(fos.take(j)) <= file_bytes(fos),
    decreases fos.len() - j,
{
    if j < fos.len() {
        lemma_file_bytes_prefix(fos, j + 1);
        assert(fos.take(j + 1).drop_last() =~= fos.take(j));
    } else {
        assert(fos.take(j) =~= fos);
    }
}

/// Accounts for the outcomes of a run over `targets`: each skipped target is
/// listed, each deleted target counts with the bytes it freed (its size, or
/// for a batch of files the bytes of the files removed, a batch counting as
/// deleted when that is above zero), and failures are listed in order (for a
/// batch of files, its first three).
pub fn execute_deletions_with(targets: Vec<CleanTarget>, outcomes: &Vec<TargetOutcome>, elevated: bool) -> (s: DeletionSummary)
    requires
        outcomes@.len() == targets@.len(),
        forall|i: int| 0 <= i < targets@.len() ==> outcome_fits(targets@[i], #[trigger] outcomes@[i], elevated),
        summary_of(targets@, outcomes@).1 <= u64::MAX,
    ensures
        s.deleted_targets == summary_of(targets@, outcomes@).0,
        s.reclaimed_bytes == summary_of(targets@, outcomes@).1,
        s.skipped_privilege@ == summary_of(targets@, outcomes@).2,
        failures_view(s.failures@) == summary_of(targets@, outcomes@).3,
{
    let mut summary = DeletionSummary {
        deleted_targets: 0,
        reclaimed_bytes: 0,
        skipped_privilege: Vec::new(),
        failures: Vec::new(),
    };
    let ghost all = targets@;
    assert(all.len() == targets.len());
    let mut rest = targets;
    let mut i: usize = 0;
    assert(failures_view(summary.failures@) =~= Seq::empty());
    assert(all.skip(0) =~= all);
    while rest.len() > 0
        invariant
            i <= all.len(),
            all.len() <= usize::MAX,
            rest@ == all.skip(i as int),
            outcomes@.len() == all.len(),
            forall|k: int| 0 <= k < all.len() ==> outcome_fits(all[k], #[trigger] outcomes@[k], elevated),
            summary_of(all, outcomes@).1 <= u64::MAX,
            summary.deleted_targets == summary_of(all, outcomes@.take(i as int)).0,
            summary.deleted_targets <= i,
            summary.reclaimed_bytes == summary_of(all, outcomes@.take(i as int)).1,
            summary.skipped_privilege@ == summary_of(all, outcomes@.take(i as int)).2,
            failures_view(summary.failures@) == summary_of(all, outcomes@.take(i as int)).3,
        decreases rest@.len(),
    {
        let ghost pre = outcomes@.take(i as int);
        let ghost post = outcomes@.take(i + 1);
        assert(post.drop_last() =~= pre);
        assert(post.last() == outcomes@[i as int]);
        proof {
            lemma_reclaimed_prefix(all, outcomes@, i + 1);
        }
        assert(rest@.len() > 0);
        assert(all.skip(i as int)[0] == all[i as int]);
        let target = rest.remove(0);
        assert(all.skip(i as int).remove(0) =~= all.skip(i + 1));
        match &outcomes[i] {
            TargetOutcome::Skipped => {
                summary.skipped_privilege.push(target);
            },
            TargetOutcome::Tree(RemovalOutcome::Removed) | TargetOutcome::Path(
                RemovalOutcome::Removed,
            ) => {
                summary.deleted_targets = summary.deleted_targets + 1;
                summary.reclaimed_bytes = summary.reclaimed_bytes + target.size_bytes;
            },
            TargetOutcome::Tree(RemovalOutcome::Missing) => {
                let ghost before = failures_view(summary.failures@);
                summary.failures.push((target.path.clone(), owned("Target directory does not exist")));
                assert(failures_view(summary.failures@) =~= before.push((target.path@, "Target directory does not exist"@)));
            },
            TargetOutcome::Path(RemovalOutcome::Missing) => {
                let ghost before = failures_view(summary.failures@);
                summary.failures.push((target.path.clone(), owned("Target path does not exist")));
                assert(failures_view(summary.failures@) =~= before.push((target.path@, "Target path does not exist"@)));
            },
            TargetOutcome::Tree(RemovalOutcome::Failed(msg)) | TargetOutcome::Path(
                RemovalOutcome::Failed(msg),
            ) => {
                let ghost before = failures_view(summary.failures@);
                summary.failures.push((target.path.clone(), msg.clone()));
                assert(failures_view(summary.failures@) =~= before.push((target.path@, msg@)));
            },
            TargetOutcome::Files(fos) => {
                proof {
                    lemma_files_bytes_bounded(all, outcomes@, i as int);
                }
                let gained = account_files(&target.files, fos, &mut summary.failures);
                if gained > 0 {
                    summary.deleted_targets = summary.deleted_targets + 1;
                    summary.reclaimed_bytes = summary.reclaimed_bytes + gained;
                }
            },
        }
        i = i + 1;
    }
    assert(outcomes@.take(all.len() as int) =~= outcomes@);
    summary
}

/// The bytes reclaimed after a prefix never exceed those after the whole.
proof fn lemma_reclaimed_prefix(ts: Seq<CleanTarget>, os: Seq<TargetOutcome>, j: int)
    requires
        0 <= j <= os.len(),
    ensures
        summary_of(ts, os.take(j)).1 <= summary_of(ts, os).1,
    decreases os.len() - j,
{
    if j < os.len() {
        lemma_reclaimed_prefix(ts, os, j + 1);
        assert(os.take(j + 1).drop_last() =~= os.take(j));
    } else {
        assert(os.take(j) =~= os);
    }
}

/// The bytes of one batch of files are within the bytes reclaimed by the run.
proof fn lemma_files_bytes_bounded(ts: Seq<CleanTarget>, os: Seq<TargetOutcome>, i: int)
    requires
        0 <= i < os.len(),
        os[i] is Files,
    ensures
        file_bytes(os[i]->Files_0@) <= summary_of(ts, os).1,
{
    lemma_reclaimed_prefix(ts, os, i + 1);
    assert(os.take(i + 1).drop_last() =~= os.take(i));
    assert(os.take(i + 1).last() == os[i]);
}

/// Whether a target is left alone for want of privilege.
pub open spec fn skipped_for_privilege(elevated: bool) -> spec_fn(CleanTarget) -> bool {
    |t: CleanTarget| t.requires_elevation && !elevated
}

/// Whether every outcome is of the kind that its target's plan calls for.
pub open spec fn outcomes_fit(ts: Seq<CleanTarget>, os: Seq<TargetOutcome>, elevated: bool) -> bool {
    &&& os.len() <= ts.len()
    &&& forall|i: int| 0 <= i < os.len() ==> outcome_fits(ts[i], #[trigger] os[i], elevated)
}

/// The targets skipped for want of privilege are exactly those, in order,
/// that need root while the process is not elevated.
pub proof fn lemma_skipped_are_privileged(ts: Seq<CleanTarget>, os: Seq<TargetOutcome>, elevated: bool)
    requires
        outcomes_fit(ts, os, elevated),
    ensures
        summary_of(ts, os).2 == ts.take(os.len() as int).filter(skipped_for_privilege(elevated)),
    decreases os.len(),
{
    reveal(Seq::filter);
    let n = os.len() as int;
    if n > 0 {
        let pre = os.drop_last();
        assert forall|i: int| 0 <= i < pre.len() implies outcome_fits(ts[i], #[trigger] pre[i], elevated) by {
            assert(pre[i] == os[i]);
        }
        lemma_skipped_are_privileged(ts, pre, elevated);
        assert(ts.take(n).drop_last() =~= ts.take(n - 1));
        assert(ts.take(n).last() == ts[n - 1]);
        assert(outcome_fits(ts[n - 1], os[n - 1], elevated));
    } else {
        assert(ts.take(0) =~= Seq::<CleanTarget>::empty());
    }
}

/// Each target is counted at most once: as deleted or as skipped.
pub proof fn lemma_each_target_counted_once(ts: Seq<CleanTarget>, os: Seq<TargetOutcome>)
    ensures
        summary_of(ts, os).0 + summary_of(ts, os).2.len() <= os.len(),
    decreases os.len(),
{
    if os.len() > 0 {
        lemma_each_target_counted_once(ts, os.drop_last());
    }
}

/// An elevated run skips nothing.
pub proof fn lemma_elevated_skips_nothing(ts: Seq<CleanTarget>, os: Seq<TargetOutcome>)
    requires
        outcomes_fit(ts, os, true),
    ensures
        summary_of(ts, os).2.len() == 0,
    decreases os.len(),
{
    if os.len() > 0 {
        let pre = os.drop_last();
        assert forall|i: int| 0 <= i < pre.len() implies outcome_fits(ts[i], #[trigger] pre[i], true) by {
            assert(pre[i] == os[i]);
        }
        lemma_elevated_skips_nothing(ts, pre);
        assert(outcome_fits(ts[os.len() - 1], os[os.len() - 1], true));
    }
}

/// Without elevation, a target that needs root is always left alone, and
/// every other target is acted on.
pub proof fn lemma_unelevated_never_touches_root_targets(t: CleanTarget, is_journal: bool)
    ensures
        (spec_plan(t, false, is_journal) == DeletionPlan::SkipForPrivilege) == t.requires_elevation,
        spec_plan(t, true, is_journal) != DeletionPlan::SkipForPrivilege,
{
}

/// A target at `/var/log/journal` that is not a tree and lists no files,
/// as the journal's own targets are, is vacuumed, not removed, whenever it
/// is not skipped for privilege.
pub proof fn lemma_journal_is_vacuumed(t: CleanTarget, elevated: bool)
    requires
        t.path@ == journal_path(),
        !t.is_tree,
        t.files@.len() == 0,
        elevated || !t.requires_elevation,
    ensures
        spec_plan(t, elevated, same_path(t.path@, journal_path())) == DeletionPlan::VacuumJournal,
{
}

/// What one more target does to the account, for every outcome but a batch
/// of files: a skipped target is listed and nothing else changes; a removed
/// tree or path counts as deleted and adds its size; a tree or path that was
/// missing or could not be removed is not counted, adds no bytes, and adds
/// exactly one failure, its path with the reason.
pub proof fn lemma_one_more_outcome(ts: Seq<CleanTarget>, os: Seq<TargetOutcome>, o: TargetOutcome)
    requires
        !(o is Files),
    ensures
        ({
            let (d0, b0, s0, f0) = summary_of(ts, os);
            let (d1, b1, s1, f1) = summary_of(ts, os.push(o));
            let t = ts[os.len() as int];
            match o {
                TargetOutcome::Skipped => d1 == d0 && b1 == b0 && s1 == s0.push(t) && f1 == f0,
                TargetOutcome::Tree(RemovalOutcome::Removed) | TargetOutcome::Path(
                    RemovalOutcome::Removed,
                ) => d1 == d0 + 1 && b1 == b0 + t.size_bytes && s1 == s0 && f1 == f0,
                TargetOutcome::Tree(RemovalOutcome::Failed(m)) | TargetOutcome::Path(
                    RemovalOutcome::Failed(m),
                ) => d1 == d0 && b1 == b0 && s1 == s0 && f1 == f0.push((t.path@, m@)),
                TargetOutcome::Tree(RemovalOutcome::Missing) => d1 == d0 && b1 == b0 && s1 == s0
                    && f1 == f0.push((t.path@, "Target directory does not exist"@)),
                TargetOutcome::Path(RemovalOutcome::Missing) => d1 == d0 && b1 == b0 && s1 == s0
                    && f1 == f0.push((t.path@, "Target path does not exist"@)),
                TargetOutcome::Files(_) => true,
            }
        }),
{
    assert(os.push(o).drop_last() =~= os);
}

/// A run in which no removal succeeded deletes nothing and reclaims
/// nothing: a target counts as deleted only when its tree or path was
/// removed, or when some of its listed files were.
pub proof fn lemma_nothing_removed_nothing_counted(ts: Seq<CleanTarget>, os: Seq<TargetOutcome>)
    requires
        forall|i: int|
            0 <= i < os.len() ==> !(#[trigger] os[i] matches TargetOutcome::Tree(RemovalOutcome::Removed))
                && !(os[i] matches TargetOutcome::Path(RemovalOutcome::Removed))
                && (os[i] matches TargetOutcome::Files(fos) ==> forall|j: int|
                0 <= j < fos@.len() ==> !(#[trigger] fos@[j] is Removed)),
    ensures
        summary_of(ts, os).0 == 0,
        summary_of(ts, os).1 == 0,
    decreases os.len(),
{
    if os.len() > 0 {
        let pre = os.drop_last();
        assert forall|i: int| 0 <= i < pre.len() implies #[trigger] pre[i] == os[i] by {}
        lemma_nothing_removed_nothing_counted(ts, pre);
        if let TargetOutcome::Files(fos) = os.last() {
            lemma_no_file_removed_no_bytes(fos@);
        }
    }
}

/// Files none of which was removed free no bytes.
proof fn lemma_no_file_removed_no_bytes(fos: Seq<FileOutcome>)
    requires
        forall|j: int| 0 <= j < fos.len() ==> !(#[trigger] fos[j] is Removed),
    ensures
        file_bytes(fos) == 0,
    decreases fos.len(),
{
    if fos.len() > 0 {
        assert(fos.last() == fos[fos.len() - 1]);
        lemma_no_file_removed_no_bytes(fos.drop_last());
    }
}

/// What a batch of listed files does to the account: the target counts as
/// deleted exactly when some bytes were freed, those bytes are added, and at
/// most its first three file failures are added, in order.
pub proof fn lemma_one_more_batch(ts: Seq<CleanTarget>, os: Seq<TargetOutcome>, fos: Vec<FileOutcome>)
    ensures
        ({
            let (d0, b0, s0, f0) = summary_of(ts, os);
            let (d1, b1, s1, f1) = summary_of(ts, os.push(TargetOutcome::Files(fos)));
            let t = ts[os.len() as int];
            let fails = file_failures(t.files@, fos@);
            &&& d1 == d0 + (if file_bytes(fos@) > 0 {
                1int
            } else {
                0int
            })
            &&& b1 == b0 + file_bytes(fos@)
            &&& s1 == s0
            &&& f1.len() == f0.len() + (if fails.len() <= 3 {
                fails.len() as int
            } else {
                3int
            })
            &&& f1.take(f0.len() as int) == f0
            &&& forall|j: int| 0 <= j < f1.len() - f0.len() ==> f1[f0.len() + j] == fails[j]
        }),
{
    let os2 = os.push(TargetOutcome::Files(fos));
    assert(os2.drop_last() =~= os);
    let (d0, b0, s0, f0) = summary_of(ts, os);
    let t = ts[os.len() as int];
    let fails = file_failures(t.files@, fos@);
    let kept = if fails.len() <= 3 {
        fails
    } else {
        fails.take(3)
    };
    assert((f0 + kept).take(f0.len() as int) =~= f0);
}

/// A batch of files records one failure for each file that was not removed
/// (missing or not removable), and none for a removed file.
pub proof fn lemma_file_failures_named(files: Seq<String>, fos: Seq<FileOutcome>)
    requires
        fos.len() <= files.len(),
    ensures
        file_failures(files, fos).len() == fos.len() - count_removed(fos),
    decreases fos.len(),
{
    if fos.len() > 0 {
        lemma_file_failures_named(files, fos.drop_last());
    }
}

/// How many of the files were removed.
pub open spec fn count_removed(fos: Seq<FileOutcome>) -> int
    decreases fos.len(),
{
    if fos.len() == 0 {
        0
    } else {
        count_removed(fos.drop_last()) + if fos.last() is Removed {
            1int
        } else {
            0int
        }
    }
}

} // verus!
