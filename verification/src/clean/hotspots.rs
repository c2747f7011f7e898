//! Disk hotspot tracking: keeps the largest of the entries observed during a
//! walk, up to a capacity.
use vstd::multiset::Multiset;
use vstd::prelude::*;

verus! {

broadcast use {
    vstd::multiset::group_multiset_axioms,
    vstd::multiset::group_multiset_properties,
    vstd::multiset::lemma_multiset_empty_len,
    vstd::seq_lib::group_to_multiset_ensures,
};

/// Maximum number of hotspot candidates retained by the scanner.
pub const MAX_HOTSPOTS: usize = 20;

/// An individual disk hotspot.
#[derive(Debug)]
pub struct HotspotItem {
    pub path: String,
    pub size_bytes: u64,
}

/// Whether every item of `small` is no larger than every item of `big`.
pub open spec fn all_below(small: Seq<HotspotItem>, big: Seq<HotspotItem>) -> bool {
    forall|i: int, j: int|
        0 <= i < small.len() && 0 <= j < big.len() ==> #[trigger] small[i].size_bytes
            <= #[trigger] big[j].size_bytes
}

/// Whether `m` is the position of a smallest item of `s`.
pub open spec fn is_min_position(s: Seq<HotspotItem>, m: int) -> bool {
    &&& 0 <= m < s.len()
    &&& forall|j: int| 0 <= j < s.len() ==> s[m].size_bytes <= #[trigger] s[j].size_bytes
}

/// Whether `kept` and `dropped` split `observed` so that `kept` holds the
/// `capacity` largest observations (all of them when there are fewer).
pub open spec fn is_top_split(
    kept: Seq<HotspotItem>,
    dropped: Seq<HotspotItem>,
    observed: Seq<HotspotItem>,
    capacity: nat,
) -> bool {
    &&& kept.len() == if observed.len() < capacity {
        observed.len()
    } else {
        capacity
    }
    &&& kept.to_multiset().add(dropped.to_multiset()) == observed.to_multiset()
    &&& all_below(dropped, kept)
}

/// Tracks the largest entries seen during a filesystem walk.
pub struct HotspotTracker {
    items: Vec<HotspotItem>,
    capacity: usize,
    seen: Ghost<Seq<HotspotItem>>,
    passed_over: Ghost<Seq<HotspotItem>>,
}

impl HotspotTracker {
    /// The tracker's invariant: the retained entries are the largest of
    /// those observed, as many as the capacity allows.
    pub open spec fn wf(&self) -> bool {
        is_top_split(self.kept(), self.dropped(), self.observed(), self.cap())
    }

    /// The entries currently retained.
    pub closed spec fn kept(&self) -> Seq<HotspotItem> {
        self.items@
    }

    /// Every entry observed so far, in order.
    pub closed spec fn observed(&self) -> Seq<HotspotItem> {
        self.seen@
    }

    /// The observed entries that are not retained.
    pub closed spec fn dropped(&self) -> Seq<HotspotItem> {
        self.passed_over@
    }

    /// The number of entries that may be retained.
    pub closed spec fn cap(&self) -> nat {
        self.capacity as nat
    }

    /// Creates a tracker that retains at most `capacity` entries.
    pub fn new(capacity: usize) -> (t: Self)
        ensures
            t.cap() == capacity,
            t.kept() == Seq::<HotspotItem>::empty(),
            t.observed() == Seq::<HotspotItem>::empty(),
            t.wf(),
    {
        let t = HotspotTracker {
            items: Vec::new(),
            capacity,
            seen: Ghost(Seq::empty()),
            passed_over: Ghost(Seq::empty()),
        };
        assert(t.items@.to_multiset().add(t.passed_over@.to_multiset()) =~= t.seen@.to_multiset());
        t
    }

    /// The position of a smallest retained entry.
    fn min_position(&self) -> (m: usize)
        requires
            self.items@.len() > 0,
        ensures
            is_min_position(self.items@, m as int),
    {
        let mut m: usize = 0;
        let mut i: usize = 1;
        while i < self.items.len()
            invariant
                0 <= m < i <= self.items@.len(),
                forall|j: int| 0 <= j < i ==> self.items@[m as int].size_bytes <= #[trigger] self.items@[j].size_bytes,
            decreases self.items@.len() - i,
        {
            if self.items[i].size_bytes < self.items[m].size_bytes {
                m = i;
            }
            i = i + 1;
        }
        m
    }

    /// Observes an entry and its size, retaining it while fewer than the
    /// capacity are held, or in place of a smallest retained entry when it is
    /// strictly larger than that one.
    pub fn observe(&mut self, path: &str, size_bytes: u64)
        requires
            old(self).wf(),
        ensures
            final(self).cap() == old(self).cap(),
            final(self).observed().len() == old(self).observed().len() + 1,
            final(self).observed().drop_last() == old(self).observed(),
            final(self).observed().last().path@ == path@,
            final(self).observed().last().size_bytes == size_bytes,
            old(self).kept().len() < old(self).cap() ==> final(self).kept() == old(
                self,
            ).kept().push(final(self).observed().last()),
            old(self).kept().len() >= old(self).cap() ==> if old(self).cap() > 0 && exists|m: int|
                is_min_position(old(self).kept(), m) && old(self).kept()[m].size_bytes
                    < size_bytes {
                exists|m: int|
                    is_min_position(old(self).kept(), m) && final(self).kept() == old(
                        self,
                    ).kept().remove(m).push(final(self).observed().last())
            } else {
                final(self).kept() == old(self).kept()
            },
            final(self).wf(),
    {
        let item = HotspotItem { path: path.to_owned(), size_bytes };
        let ghost it = item;
        let ghost old_items = self.items@;
        let ghost old_seen = self.seen@;
        let ghost old_dropped = self.passed_over@;
        if self.items.len() < self.capacity {
            proof {
                // Nothing has been passed over while below capacity.
                assert(old_dropped.len() == 0) by {
                    assert(old_items.to_multiset().len() == old_items.len());
                    assert(old_seen.to_multiset().len() == old_seen.len());
                    assert(old_dropped.to_multiset().len() == old_dropped.len());
                }
            }
            self.items.push(item);
            self.seen = Ghost(old_seen.push(it));
            proof {
                assert(self.items@.to_multiset().add(self.passed_over@.to_multiset()) =~= self.seen@.to_multiset());
            }
        } else if self.capacity > 0 {
            let m = self.min_position();
            if self.items[m].size_bytes < size_bytes {
                let evicted = self.items.remove(m);
                let ghost ev = evicted;
                self.items.push(item);
                self.seen = Ghost(old_seen.push(it));
                self.passed_over = Ghost(old_dropped.push(ev));
                proof {
                    let items = self.items@;
                    assert(items == old_items.remove(m as int).push(it));
                    assert(items.to_multiset().add(self.passed_over@.to_multiset()) =~= self.seen@.to_multiset());
                    assert forall|a: int, b: int|
                        0 <= a < self.passed_over@.len() && 0 <= b < items.len() implies #[trigger] self.passed_over@[a].size_bytes
                        <= #[trigger] items[b].size_bytes by {
                        if b < items.len() - 1 {
                            let ob = if b < m {
                                b
                            } else {
                                b + 1
                            };
                            assert(items[b] == old_items[ob]);
                            if a < old_dropped.len() {
                                assert(self.passed_over@[a] == old_dropped[a]);
                            }
                        } else {
                            if a < old_dropped.len() {
                                assert(self.passed_over@[a] == old_dropped[a]);
                                assert(old_dropped[a].size_bytes <= old_items[m as int].size_bytes);
                            }
                        }
                    }
                }

            } else {
                self.seen = Ghost(old_seen.push(it));
                self.passed_over = Ghost(old_dropped.push(it));
                proof {
                    assert(self.items@.to_multiset().add(self.passed_over@.to_multiset()) =~= self.seen@.to_multiset());
                    assert forall|a: int, b: int|
                        0 <= a < self.passed_over@.len() && 0 <= b < self.items@.len() implies #[trigger] self.passed_over@[a].size_bytes
                        <= #[trigger] self.items@[b].size_bytes by {
                        if a < old_dropped.len() {
                            assert(self.passed_over@[a] == old_dropped[a]);
                        } else {
                            assert(self.items@[m as int].size_bytes <= self.items@[b].size_bytes);
                        }
                    }
                    if exists|k: int| is_min_position(old_items, k) && old_items[k].size_bytes < size_bytes {
                        let k = choose|k: int| is_min_position(old_items, k) && old_items[k].size_bytes < size_bytes;
                        assert(old_items[k].size_bytes <= old_items[m as int].size_bytes);
                        assert(old_items[m as int].size_bytes <= old_items[k].size_bytes);
                    }
                }
            }
        } else {
            self.seen = Ghost(old_seen.push(it));
            self.passed_over = Ghost(old_dropped.push(it));
            proof {
                assert(self.items@.to_multiset().add(self.passed_over@.to_multiset()) =~= self.seen@.to_multiset());
            }
        }
    }

    /// Consumes the tracker and returns the retained entries, largest first.
    pub fn into_sorted_vec(self) -> (r: Vec<HotspotItem>)
        requires
            self.wf(),
        ensures
            r@.to_multiset() == self.kept().to_multiset(),
            r@.len() == self.kept().len(),
            forall|i: int, j: int| 0 <= i < j < r@.len() ==> r@[j].size_bytes <= r@[i].size_bytes,
            is_top_split(r@, self.dropped(), self.observed(), self.cap()),
    {
        let ghost kept = self.items@;
        let ghost dropped = self.passed_over@;
        let HotspotTracker { items, capacity: _, seen: _, passed_over: _ } = self;
        let r = sort_by_size_descending(items);
        proof {
            assert forall|a: int, b: int|
                0 <= a < dropped.len() && 0 <= b < r@.len() implies #[trigger] dropped[a].size_bytes
                <= #[trigger] r@[b].size_bytes by {
                assert(r@.to_multiset().count(r@[b]) > 0);
                assert(kept.to_multiset().count(r@[b]) > 0);
                assert(kept.contains(r@[b]));
                let t = choose|t: int| 0 <= t < kept.len() && kept[t] == r@[b];
                assert(dropped[a].size_bytes <= kept[t].size_bytes);
            }
        }
        r
    }
}

/// The items of `v` ordered from largest to smallest size; items of equal
/// size may come in any order.
pub fn sort_by_size_descending(v: Vec<HotspotItem>) -> (r: Vec<HotspotItem>)
    ensures
        r@.to_multiset() == v@.to_multiset(),
        r@.len() == v@.len(),
        forall|i: int, j: int| 0 <= i < j < r@.len() ==> r@[j].size_bytes <= r@[i].size_bytes,
{
    let ghost orig = v@;
    let mut rest = v;
    let mut out: Vec<HotspotItem> = Vec::new();
    while rest.len() > 0
        invariant
            out@.to_multiset().add(rest@.to_multiset()) == orig.to_multiset(),
            forall|i: int, j: int| 0 <= i < j < out@.len() ==> out@[j].size_bytes <= out@[i].size_bytes,
            forall|i: int, j: int|
                0 <= i < out@.len() && 0 <= j < rest@.len() ==> #[trigger] rest@[j].size_bytes
                    <= #[trigger] out@[i].size_bytes,
        decreases rest@.len(),
    {
        // Move a largest remaining item to the end of the output.
        let mut best: usize = 0;
        let mut i: usize = 1;
        while i < rest.len()
            invariant
                0 <= best < i <= rest@.len(),
                forall|j: int| 0 <= j < i ==> #[trigger] rest@[j].size_bytes <= rest@[best as int].size_bytes,
            decreases rest@.len() - i,
        {
            if rest[i].size_bytes > rest[best].size_bytes {
                best = i;
            }
            i = i + 1;
        }
        let ghost old_rest = rest@;
        let ghost old_out = out@;
        let item = rest.remove(best);
        let ghost x = item;
        out.push(item);
        proof {
            assert(rest@ == old_rest.remove(best as int));
            assert(out@.to_multiset().add(rest@.to_multiset()) =~= orig.to_multiset());
            assert forall|a: int, b: int|
                0 <= a < out@.len() && 0 <= b < rest@.len() implies #[trigger] rest@[b].size_bytes
                <= #[trigger] out@[a].size_bytes by {
                let ob = if b < best {
                    b
                } else {
                    b + 1
                };
                assert(rest@[b] == old_rest[ob]);
                if a < old_out.len() {
                    assert(out@[a] == old_out[a]);
                }
            }
            assert forall|a: int, b: int| 0 <= a < b < out@.len() implies out@[b].size_bytes
                <= out@[a].size_bytes by {
                if b < old_out.len() {
                    assert(out@[a] == old_out[a] && out@[b] == old_out[b]);
                } else {
                    assert(out@[a] == old_out[a]);
                    assert(old_rest[best as int].size_bytes <= old_out[a].size_bytes);
                }
            }
        }
    }
    proof {
        assert(rest@.to_multiset() =~= Multiset::empty());
        assert(out@.to_multiset().len() == out@.len());
        assert(orig.to_multiset().len() == orig.len());
    }
    out
}

} // verus!
