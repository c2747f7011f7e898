//! The choices of the interactive clean: the targets of one category, the
//! per-category summaries offered for bulk cleaning (largest first), the
//! targets that can be cleaned without root, and the labels shown for
//! targets and categories. The prompts themselves are the caller's.
use crate::clean::classifier::{category_label, CleanCategory, CleanTarget};
use crate::order::{is_permutation, order_by_size_descending, sizes_descending};
use crate::text::{append_str, decimal, decimal_string, owned};
use vstd::prelude::*;

verus! {

/// Why the interactive clean stopped.
#[derive(Debug, Clone, PartialEq, Eq)]
pub enum CleanError {
    /// A prompt was aborted (the reason is held).
    PromptAborted(String),
}

impl CleanError {
    /// The message of the error.
    pub fn message(&self) -> (r: String)
        ensures
            self matches CleanError::PromptAborted(m) && r@ == "Interactive prompt aborted: "@ + m@,
    {
        match self {
            CleanError::PromptAborted(m) => {
                let mut out = owned("Interactive prompt aborted: ");
                append_str(&mut out, m.as_str());
                out
            },
        }
    }
}

/// A size in bytes as humansize writes it with decimal units (such as
/// `1.50 MB`).
pub uninterp spec fn decimal_size_text(bytes: u64) -> Seq<char>;

/// Writes a size with decimal units (humansize's `format_size` with
/// `DECIMAL`).
#[verifier::external_body]
fn format_decimal_size(bytes: u64) -> (r: String)
    ensures
        r@ == decimal_size_text(bytes),
{
    humansize::format_size(bytes, humansize::DECIMAL)
}

/// How a target is offered for selection: category, title and size, the
/// item count when there is more than one item, and a root notice.
pub open spec fn target_option_text(t: CleanTarget) -> Seq<char> {
    "["@ + category_label(t.category) + "] "@ + t.title@ + " — "@ + decimal_size_text(t.size_bytes)
        + (if t.item_count > 1 {
        " ("@ + decimal(t.item_count as nat) + " items)"@
    } else {
        Seq::empty()
    }) + (if t.requires_elevation {
        " [Requires Root]"@
    } else {
        Seq::empty()
    })
}

/// The label under which a target is offered for selection.
pub fn target_option_label(t: &CleanTarget) -> (r: String)
    ensures
        r@ == target_option_text(*t),
{
    let mut out = owned("[");
    append_str(&mut out, t.category.label());
    append_str(&mut out, "] ");
    append_str(&mut out, t.title.as_str());
    append_str(&mut out, " — ");
    let size = format_decimal_size(t.size_bytes);
    append_str(&mut out, size.as_str());
    let ghost before_count = out@;
    if t.item_count > 1 {
        append_str(&mut out, " (");
        let digits = decimal_string(t.item_count as u64);
        append_str(&mut out, digits.as_str());
        append_str(&mut out, " items)");
    }
    assert(out@ =~= before_count + (if t.item_count > 1 {
        " ("@ + decimal(t.item_count as nat) + " items)"@
    } else {
        Seq::empty()
    }));
    let ghost before_root = out@;
    if t.requires_elevation {
        append_str(&mut out, " [Requires Root]");
    }
    assert(out@ =~= before_root + (if t.requires_elevation {
        " [Requires Root]"@
    } else {
        Seq::empty()
    }));
    out
}

/// A whole category as offered for bulk cleaning.
#[derive(Debug, Clone, Copy, PartialEq, Eq, Structural)]
pub struct CategorySummary {
    pub category: CleanCategory,
    pub target_count: usize,
    pub total_size: u64,
    pub item_count: usize,
    pub has_root: bool,
}

/// Over the targets of category `c`: how many there are, their bytes, their
/// items, and whether any needs root.
pub open spec fn category_stats(ts: Seq<CleanTarget>, c: CleanCategory) -> (nat, nat, nat, bool)
    decreases ts.len(),
{
    if ts.len() == 0 {
        (0, 0, 0, false)
    } else {
        let prev = category_stats(ts.drop_last(), c);
        let t = ts.last();
        if t.category == c {
            (
                prev.0 + 1,
                prev.1 + t.size_bytes as nat,
                prev.2 + t.item_count as nat,
                prev.3 || t.requires_elevation,
            )
        } else {
            prev
        }
    }
}

/// Whether `s` sums up the targets of its category.
#[verifier::opaque]
pub open spec fn summarizes(s: CategorySummary, ts: Seq<CleanTarget>) -> bool {
    let st = category_stats(ts, s.category);
    &&& s.target_count == st.0
    &&& s.total_size == st.1
    &&& s.item_count == st.2
    &&& s.has_root == st.3
}

/// Whether the sums of every category fit their integer types.
pub open spec fn stats_fit(ts: Seq<CleanTarget>) -> bool {
    forall|c: CleanCategory|
        #![trigger category_stats(ts, c)]
        category_stats(ts, c).1 <= u64::MAX && category_stats(ts, c).2 <= usize::MAX
}

/// The sums over a prefix never exceed those over the whole.
proof fn lemma_stats_prefix(ts: Seq<CleanTarget>, c: CleanCategory, j: int)
    requires
        0 <= j <= ts.len(),
    ensures
        category_stats(ts.take(j), c).0 <= category_stats(ts, c).0,
        category_stats(ts.take(j), c).1 <= category_stats(ts, c).1,
        category_stats(ts.take(j), c).2 <= category_stats(ts, c).2,
    decreases ts.len() - j,
{
    if j < ts.len() {
        lemma_stats_prefix(ts, c, j + 1);
        assert(ts.take(j + 1).drop_last() =~= ts.take(j));
    } else {
        assert(ts.take(j) =~= ts);
    }
}

/// A category with a target counts at least one.
proof fn lemma_stats_counts_target(ts: Seq<CleanTarget>, k: int)
    requires
        0 <= k < ts.len(),
    ensures
        category_stats(ts, ts[k].category).0 > 0,
    decreases ts.len(),
{
    if k < ts.len() - 1 {
        lemma_stats_counts_target(ts.drop_last(), k);
    }
}

/// The summary of category `c`.
fn summary_for(targets: &Vec<CleanTarget>, c: CleanCategory) -> (s: CategorySummary)
    requires
        stats_fit(targets@),
    ensures
        s.category == c,
        summarizes(s, targets@),
{
    let mut count: usize = 0;
    let mut size: u64 = 0;
    let mut items: usize = 0;
    let mut root = false;
    let mut i: usize = 0;
    assert(category_stats(targets@, c).1 <= u64::MAX);
    while i < targets.len()
        invariant
            i <= targets@.len(),
            category_stats(targets@, c).1 <= u64::MAX,
            category_stats(targets@, c).2 <= usize::MAX,
            count <= i,
            (count as nat, size as nat, items as nat, root) == category_stats(targets@.take(i as int), c),
        decreases targets@.len() - i,
    {
        proof {
            lemma_stats_prefix(targets@, c, i + 1);
            assert(targets@.take(i + 1).drop_last() =~= targets@.take(i as int));
            assert(targets@.take(i + 1).last() == targets@[i as int]);
        }
        let t = &targets[i];
        if t.category == c {
            count = count + 1;
            size = size + t.size_bytes;
            items = items + t.item_count;
            root = root || t.requires_elevation;
        }
        i = i + 1;
    }
    assert(targets@.take(targets@.len() as int) =~= targets@);
    let s = CategorySummary { category: c, target_count: count, total_size: size, item_count: items, has_root: root };
    proof {
        reveal(summarizes);
    }
    s
}

/// The place of a category in the order in which categories are summed up.
pub open spec fn rank(c: CleanCategory) -> int {
    match c {
        CleanCategory::PackageCache => 0,
        CleanCategory::LogsCache => 1,
        CleanCategory::Thumbnails => 2,
        CleanCategory::Artifacts => 3,
        CleanCategory::Trash => 4,
        CleanCategory::Backups => 5,
        CleanCategory::Hotspots => 6,
    }
}

/// The category at place `k` of the summing order.
fn category_at(k: u8) -> (c: CleanCategory)
    requires
        k < 7,
    ensures
        rank(c) == k,
{
    if k == 0 {
        CleanCategory::PackageCache
    } else if k == 1 {
        CleanCategory::LogsCache
    } else if k == 2 {
        CleanCategory::Thumbnails
    } else if k == 3 {
        CleanCategory::Artifacts
    } else if k == 4 {
        CleanCategory::Trash
    } else if k == 5 {
        CleanCategory::Backups
    } else {
        CleanCategory::Hotspots
    }
}

/// Categories of different places differ.
proof fn lemma_rank_injective(c: CleanCategory, d: CleanCategory)
    ensures
        rank(c) == rank(d) ==> c == d,
{
}

/// Whether the summaries are those of categories with targets, each summed
/// correctly, no category twice, and their sizes listed alongside.
pub open spec fn groups_ok(g: Seq<CategorySummary>, sizes: Seq<u64>, ts: Seq<CleanTarget>) -> bool {
    &&& sizes.len() == g.len()
    &&& forall|i: int| 0 <= i < g.len() ==> #[trigger] sizes[i] == g[i].total_size
    &&& forall|i: int| 0 <= i < g.len() ==> summarizes(#[trigger] g[i], ts) && g[i].target_count > 0
    &&& forall|i: int, j: int| 0 <= i < j < g.len() ==> g[i].category != g[j].category
}

/// The summaries of the categories with targets, in summing order, with
/// their sizes.
fn group_categories(targets: &Vec<CleanTarget>) -> (r: (Vec<CategorySummary>, Vec<u64>))
    requires
        stats_fit(targets@),
    ensures
        groups_ok(r.0@, r.1@, targets@),
        forall|c: CleanCategory|
            #[trigger] category_stats(targets@, c).0 > 0 ==> exists|i: int|
                0 <= i < r.0@.len() && #[trigger] r.0@[i].category == c,
{
    let mut groups: Vec<CategorySummary> = Vec::new();
    let mut sizes: Vec<u64> = Vec::new();
    let mut a: u8 = 0;
    while a < 7
        invariant
            a <= 7,
            stats_fit(targets@),
            sizes@.len() == groups@.len(),
            forall|i: int| 0 <= i < groups@.len() ==> #[trigger] sizes@[i] == groups@[i].total_size,
            forall|i: int| 0 <= i < groups@.len() ==> summarizes(#[trigger] groups@[i], targets@) && groups@[i].target_count > 0,
            forall|i: int| 0 <= i < groups@.len() ==> rank(#[trigger] groups@[i].category) < a,
            forall|i: int, j: int| 0 <= i < j < groups@.len() ==> rank(#[trigger] groups@[i].category) < rank(#[trigger] groups@[j].category),
            forall|c: CleanCategory|
                rank(c) < a && #[trigger] category_stats(targets@, c).0 > 0 ==> exists|i: int|
                    0 <= i < groups@.len() && #[trigger] groups@[i].category == c,
        decreases 7 - a,
    {
        let c = category_at(a);
        let s = summary_for(targets, c);
        let ghost old_groups = groups@;
        if s.target_count > 0 {
            groups.push(s);
            sizes.push(s.total_size);
            proof {
                assert(groups@[groups@.len() - 1] == s);
                assert forall|i: int| 0 <= i < groups@.len() implies rank(#[trigger] groups@[i].category) < a + 1 by {
                    if i < old_groups.len() {
                        assert(groups@[i] == old_groups[i]);
                    }
                }
                assert forall|i: int, j: int| 0 <= i < j < groups@.len() implies rank(#[trigger] groups@[i].category) < rank(#[trigger] groups@[j].category) by {
                    assert(groups@[i] == old_groups[i]);
                    if j < old_groups.len() {
                        assert(groups@[j] == old_groups[j]);
                    }
                }
            }
        }
        proof {
            assert forall|d: CleanCategory|
                rank(d) < a + 1 && #[trigger] category_stats(targets@, d).0 > 0 implies exists|i: int|
                    0 <= i < groups@.len() && #[trigger] groups@[i].category == d by {
                lemma_rank_injective(c, d);
                if rank(d) < a {
                    let i = choose|i: int| 0 <= i < old_groups.len() && #[trigger] old_groups[i].category == d;
                    assert(groups@[i] == old_groups[i]);
                } else {
                    reveal(summarizes);
                    assert(d == c);
                    assert(s.target_count > 0);
                    assert(groups@[groups@.len() - 1].category == d);
                }
            }
        }
        a = a + 1;
    }
    proof {
        assert forall|i: int, j: int| 0 <= i < j < groups@.len() implies groups@[i].category != groups@[j].category by {
            assert(rank(groups@[i].category) < rank(groups@[j].category));
        }
        assert forall|c: CleanCategory| #[trigger] category_stats(targets@, c).0 > 0 implies exists|i: int|
            0 <= i < groups@.len() && #[trigger] groups@[i].category == c by {
            assert(rank(c) < 7);
        }
    }
    (groups, sizes)
}

/// One summary for each category that has targets, largest total size
/// first.
pub fn summarize_categories(targets: &Vec<CleanTarget>) -> (r: Vec<CategorySummary>)
    requires
        stats_fit(targets@),
    ensures
        forall|i: int| 0 <= i < r@.len() ==> summarizes(#[trigger] r@[i], targets@) && r@[i].target_count > 0,
        forall|i: int, j: int| 0 <= i < j < r@.len() ==> r@[i].category != r@[j].category,
        forall|k: int|
            0 <= k < targets@.len() ==> exists|i: int|
                0 <= i < r@.len() && #[trigger] r@[i].category == #[trigger] targets@[k].category,
        forall|i: int, j: int| 0 <= i < j < r@.len() ==> r@[j].total_size <= r@[i].total_size,
{
    let (groups, sizes) = group_categories(targets);
    let perm = order_by_size_descending(&sizes);
    let mut r: Vec<CategorySummary> = Vec::new();
    let mut q: usize = 0;
    while q < perm.len()
        invariant
            q <= perm@.len(),
            is_permutation(perm@, groups@.len()),
            sizes@.len() == groups@.len(),
            r@.len() == q,
            forall|t: int| 0 <= t < q ==> #[trigger] r@[t] == groups@[perm@[t] as int],
        decreases perm@.len() - q,
    {
        r.push(groups[perm[q]]);
        q = q + 1;
    }
    proof {
        assert forall|i: int, j: int| 0 <= i < j < r@.len() implies r@[i].category != r@[j].category by {
            assert(perm@[i] != perm@[j]);
        }
        assert forall|i: int, j: int| 0 <= i < j < r@.len() implies r@[j].total_size <= r@[i].total_size by {
            assert(sizes@[perm@[j] as int] <= sizes@[perm@[i] as int]);
        }
        assert forall|k: int| 0 <= k < targets@.len() implies exists|i: int|
            0 <= i < r@.len() && #[trigger] r@[i].category == #[trigger] targets@[k].category by {
            let c = targets@[k].category;
            lemma_stats_counts_target(targets@, k);
            let g = choose|g: int| 0 <= g < groups@.len() && #[trigger] groups@[g].category == c;
            assert(perm@.contains(g as usize));
            let t = choose|t: int| 0 <= t < perm@.len() && perm@[t] == g as usize;
            assert(r@[t].category == c);
        }
    }
    r
}

/// How a category is offered for bulk cleaning: its size, its targets and
/// items, and a root notice.
pub open spec fn category_option_text(s: CategorySummary) -> Seq<char> {
    "["@ + category_label(s.category) + "] "@ + decimal_size_text(s.total_size) + " across "@
        + decimal(s.target_count as nat) + " target(s) ("@ + decimal(s.item_count as nat)
        + " item(s))"@ + (if s.has_root {
        " [Requires Root]"@
    } else {
        Seq::empty()
    })
}

/// The label under which a category is offered for bulk cleaning.
pub fn category_option_label(s: &CategorySummary) -> (r: String)
    ensures
        r@ == category_option_text(*s),
{
    let mut out = owned("[");
    append_str(&mut out, s.category.label());
    append_str(&mut out, "] ");
    let size = format_decimal_size(s.total_size);
    append_str(&mut out, size.as_str());
    append_str(&mut out, " across ");
    let n = decimal_string(s.target_count as u64);
    append_str(&mut out, n.as_str());
    append_str(&mut out, " target(s) (");
    let items = decimal_string(s.item_count as u64);
    append_str(&mut out, items.as_str());
    append_str(&mut out, " item(s))");
    let ghost before_root = out@;
    if s.has_root {
        append_str(&mut out, " [Requires Root]");
    }
    assert(out@ =~= before_root + (if s.has_root {
        " [Requires Root]"@
    } else {
        Seq::empty()
    }));
    out
}

/// The positions of the targets that pass `keep`, in order.
pub open spec fn positions_where(ts: Seq<CleanTarget>, keep: spec_fn(CleanTarget) -> bool) -> Seq<usize>
    decreases ts.len(),
{
    if ts.len() == 0 {
        Seq::empty()
    } else {
        let prev = positions_where(ts.drop_last(), keep);
        if keep(ts.last()) {
            prev.push((ts.len() - 1) as usize)
        } else {
            prev
        }
    }
}

/// Whether a target is in category `c`.
pub open spec fn in_category(c: CleanCategory) -> spec_fn(CleanTarget) -> bool {
    |t: CleanTarget| t.category == c
}

/// Whether a target is in one of the categories.
pub open spec fn in_categories(cs: Seq<CleanCategory>) -> spec_fn(CleanTarget) -> bool {
    |t: CleanTarget| cs.contains(t.category)
}

/// Whether a target is safe to clean in bulk: it needs no root.
pub open spec fn needs_no_root() -> spec_fn(CleanTarget) -> bool {
    |t: CleanTarget| !t.requires_elevation
}

/// Whether category `c` is among `cs`.
fn category_listed(cs: &Vec<CleanCategory>, c: CleanCategory) -> (b: bool)
    ensures
        b == cs@.contains(c),
{
    let mut i: usize = 0;
    while i < cs.len()
        invariant
            i <= cs@.len(),
            forall|k: int| 0 <= k < i ==> cs@[k] != c,
        decreases cs@.len() - i,
    {
        if cs[i] == c {
            assert(cs@[i as int] == c);
            return true;
        }
        i = i + 1;
    }
    false
}

/// What a selection keeps.
#[derive(Debug)]
pub enum TargetFilter {
    /// The targets of one category.
    Category(CleanCategory),
    /// The targets of any of these categories.
    Categories(Vec<CleanCategory>),
    /// The safe targets: those that need no root.
    Safe,
}

/// The test that a filter applies to each target.
pub open spec fn filter_test(f: TargetFilter) -> spec_fn(CleanTarget) -> bool {
    match f {
        TargetFilter::Category(c) => in_category(c),
        TargetFilter::Categories(cs) => in_categories(cs@),
        TargetFilter::Safe => needs_no_root(),
    }
}

/// The positions of the targets that a filter keeps, in order: those of one
/// category, those of the chosen categories, or the safe ones (those that
/// need no root, whatever the process's privilege).
pub fn select_targets(targets: &Vec<CleanTarget>, filter: &TargetFilter) -> (r: Vec<usize>)
    ensures
        r@ == positions_where(targets@, filter_test(*filter)),
{
    let ghost keep = filter_test(*filter);
    let mut r: Vec<usize> = Vec::new();
    let mut i: usize = 0;
    while i < targets.len()
        invariant
            i <= targets@.len(),
            keep == filter_test(*filter),
            r@ == positions_where(targets@.take(i as int), keep),
        decreases targets@.len() - i,
    {
        proof {
            assert(targets@.take(i + 1).drop_last() =~= targets@.take(i as int));
            assert(targets@.take(i + 1).last() == targets@[i as int]);
        }
        let t = &targets[i];
        let kept = match filter {
            TargetFilter::Category(c) => t.category == *c,
            TargetFilter::Categories(cs) => category_listed(cs, t.category),
            TargetFilter::Safe => !t.requires_elevation,
        };
        if kept {
            r.push(i);
        }
        i = i + 1;
    }
    assert(targets@.take(targets@.len() as int) =~= targets@);
    r
}

/// The bytes and items of the targets at the given positions.
pub open spec fn picked_totals(ts: Seq<CleanTarget>, picks: Seq<usize>) -> (nat, nat)
    decreases picks.len(),
{
    if picks.len() == 0 {
        (0, 0)
    } else {
        let prev = picked_totals(ts, picks.drop_last());
        let t = ts[picks.last() as int];
        (prev.0 + t.size_bytes as nat, prev.1 + t.item_count as nat)
    }
}

/// The total bytes and items of the targets at the given positions.
pub fn picked_size_and_items(targets: &Vec<CleanTarget>, picks: &Vec<usize>) -> (r: (u64, usize))
    requires
        forall|i: int| 0 <= i < picks@.len() ==> #[trigger] picks@[i] < targets@.len(),
        picked_totals(targets@, picks@).0 <= u64::MAX,
        picked_totals(targets@, picks@).1 <= usize::MAX,
    ensures
        r.0 == picked_totals(targets@, picks@).0,
        r.1 == picked_totals(targets@, picks@).1,
{
    let mut size: u64 = 0;
    let mut items: usize = 0;
    let mut i: usize = 0;
    while i < picks.len()
        invariant
            i <= picks@.len(),
            forall|k: int| 0 <= k < picks@.len() ==> #[trigger] picks@[k] < targets@.len(),
            picked_totals(targets@, picks@).0 <= u64::MAX,
            picked_totals(targets@, picks@).1 <= usize::MAX,
            (size as nat, items as nat) == picked_totals(targets@, picks@.take(i as int)),
        decreases picks@.len() - i,
    {
        proof {
            lemma_picked_prefix(targets@, picks@, i + 1);
            assert(picks@.take(i + 1).drop_last() =~= picks@.take(i as int));
            assert(picks@.take(i + 1).last() == picks@[i as int]);
        }
        let t = &targets[picks[i]];
        size = size + t.size_bytes;
        items = items + t.item_count;
        i = i + 1;
    }
    assert(picks@.take(picks@.len() as int) =~= picks@);
    (size, items)
}

/// The totals over a prefix of the picks never exceed those over all.
proof fn lemma_picked_prefix(ts: Seq<CleanTarget>, picks: Seq<usize>, j: int)
    requires
        0 <= j <= picks.len(),
    ensures
        picked_totals(ts, picks.take(j)).0 <= picked_totals(ts, picks).0,
        picked_totals(ts, picks.take(j)).1 <= picked_totals(ts, picks).1,
    decreases picks.len() - j,
{
    if j < picks.len() {
        lemma_picked_prefix(ts, picks, j + 1);
        assert(picks.take(j + 1).drop_last() =~= picks.take(j));
    } else {
        assert(picks.take(j) =~= picks);
    }
}

/// The targets whose position is listed in `picks`, in their own order.
pub open spec fn listed_targets(ts: Seq<CleanTarget>, picks: Seq<usize>) -> Seq<CleanTarget>
    decreases ts.len(),
{
    if ts.len() == 0 {
        Seq::empty()
    } else {
        let prev = listed_targets(ts.drop_last(), picks);
        if picks.contains((ts.len() - 1) as usize) {
            prev.push(ts.last())
        } else {
            prev
        }
    }
}

/// Whether position `p` is listed.
fn position_listed(picks: &[usize], p: usize) -> (b: bool)
    ensures
        b == picks@.contains(p),
{
    let mut i: usize = 0;
    while i < picks.len()
        invariant
            i <= picks@.len(),
            forall|k: int| 0 <= k < i ==> picks@[k] != p,
        decreases picks@.len() - i,
    {
        if picks[i] == p {
            assert(picks@[i as int] == p);
            return true;
        }
        i = i + 1;
    }
    false
}

/// Takes the targets at the listed positions out of the list, keeping their
/// order; positions past the end are ignored.
pub fn take_targets(targets: Vec<CleanTarget>, picks: &[usize]) -> (r: Vec<CleanTarget>)
    ensures
        r@ == listed_targets(targets@, picks@),
{
    let ghost all = targets@;
    let n: usize = targets.len();
    let mut rest = targets;
    let mut out: Vec<CleanTarget> = Vec::new();
    let mut i: usize = 0;
    while rest.len() > 0
        invariant
            i <= all.len(),
            all.len() == n,
            rest@ == all.skip(i as int),
            out@ == listed_targets(all.take(i as int), picks@),
        decreases rest@.len(),
    {
        proof {
            assert(all.take(i + 1).drop_last() =~= all.take(i as int));
            assert(all.take(i + 1).last() == all[i as int]);
        }
        let t = rest.remove(0);
        assert(rest@ =~= all.skip(i + 1));
        if position_listed(picks, i) {
            out.push(t);
        }
        i = i + 1;
    }
    assert(all.take(i as int) =~= all);
    out
}

/// A category needs root exactly when one of its targets does.
pub proof fn lemma_root_flag_means_some_root_target(ts: Seq<CleanTarget>, c: CleanCategory)
    ensures
        category_stats(ts, c).3 <==> exists|k: int|
            0 <= k < ts.len() && (#[trigger] ts[k]).category == c && ts[k].requires_elevation,
    decreases ts.len(),
{
    if ts.len() > 0 {
        let pre = ts.drop_last();
        lemma_root_flag_means_some_root_target(pre, c);
        if category_stats(pre, c).3 {
            let k = choose|k: int| 0 <= k < pre.len() && (#[trigger] pre[k]).category == c && pre[k].requires_elevation;
            assert(ts[k] == pre[k]);
        }
        if exists|k: int| 0 <= k < ts.len() && (#[trigger] ts[k]).category == c && ts[k].requires_elevation {
            let k = choose|k: int| 0 <= k < ts.len() && (#[trigger] ts[k]).category == c && ts[k].requires_elevation;
            if k < ts.len() - 1 {
                assert(pre[k] == ts[k]);
            }
        }
    }
}

/// A summary of a category counts its targets and says it needs root
/// exactly when one of its targets does.
pub proof fn lemma_summary_root_and_count(s: CategorySummary, ts: Seq<CleanTarget>)
    requires
        summarizes(s, ts),
    ensures
        s.has_root <==> exists|k: int|
            0 <= k < ts.len() && (#[trigger] ts[k]).category == s.category && ts[k].requires_elevation,
        s.target_count == ts.filter(in_category(s.category)).len(),
{
    reveal(summarizes);
    lemma_root_flag_means_some_root_target(ts, s.category);
    lemma_count_is_filter_len(ts, s.category);
}

/// The count of a category is the number of its targets.
proof fn lemma_count_is_filter_len(ts: Seq<CleanTarget>, c: CleanCategory)
    ensures
        category_stats(ts, c).0 == ts.filter(in_category(c)).len(),
    decreases ts.len(),
{
    reveal(Seq::filter);
    if ts.len() > 0 {
        lemma_count_is_filter_len(ts.drop_last(), c);
    }
}

} // verus!
