//! An ordered set of merged, non-overlapping intervals over integer keys.
//!
//! Inserting an interval that overlaps or touches stored ones merges them
//! into a single interval spanning the union.  The set answers whether a
//! query range intersects any stored interval (`contains_range`) or lies
//! entirely inside one (`covers_range`).  It is used to track which time
//! ranges have actually been observed, so a query can tell "nothing there"
//! from "not yet decoded".

use vstd::prelude::*;

verus! {

/// Intervals are sorted, each is non-empty (`a <= b`), and consecutive
/// intervals neither overlap nor touch (`b < a'`), so they cannot merge.
pub open spec fn wf_seq(s: Seq<(i64, i64)>) -> bool {
    &&& forall|k: int| 0 <= k < s.len() ==> (#[trigger] s[k]).0 <= s[k].1
    &&& forall|k: int| 0 <= k < s.len() - 1 ==> (#[trigger] s[k]).1 < s[k + 1].0
}

/// `x` lies in one of the intervals `s[lo..hi]`.
pub open spec fn covered_by(s: Seq<(i64, i64)>, lo: int, hi: int, x: int) -> bool {
    exists|k: int| lo <= k < hi && (#[trigger] s[k]).0 <= x <= s[k].1
}

/// In a well-formed sequence every earlier interval ends before a later one
/// begins.
proof fn lemma_sorted_apart(s: Seq<(i64, i64)>, k: int, j: int)
    requires
        wf_seq(s),
        0 <= k < j < s.len(),
    ensures
        s[k].1 < s[j].0,
    decreases j - k,
{
    if k + 1 < j {
        lemma_sorted_apart(s, k + 1, j);
    }
}


/// The exact shape `add(left, right)` leaves behind, with `ms..me` the run
/// of old intervals that merged: intervals before the run (they end before
/// `left`) and after it (they begin after `right`) survive unchanged, and
/// the run — every old interval that overlaps or touches `[left, right]` —
/// is replaced, together with the new interval, by the single interval
/// spanning their union.
pub open spec fn add_shape(
    s: Seq<(i64, i64)>,
    o: Seq<(i64, i64)>,
    left: i64,
    right: i64,
    ms: int,
    me: int,
) -> bool {
    &&& 0 <= ms <= me <= s.len()
    &&& o.len() == s.len() - (me - ms) + 1
    &&& (forall|k: int| 0 <= k < ms ==> #[trigger] o[k] == s[k])
    &&& (forall|k: int| ms < k < o.len() ==> #[trigger] o[k] == s[k + (me - ms) - 1])
    &&& (forall|k: int| 0 <= k < ms ==> (#[trigger] s[k]).1 < left)
    &&& (forall|k: int| me <= k < s.len() ==> (#[trigger] s[k]).0 > right)
    &&& (forall|k: int| ms <= k < me ==> (#[trigger] s[k]).0 <= right && s[k].1 >= left)
    &&& o[ms] == ((
        if ms < me && s[ms].0 < left {
            s[ms].0
        } else {
            left
        },
        if ms < me && s[me - 1].1 > right {
            s[me - 1].1
        } else {
            right
        },
    ))
}

/// `o` is what adding `[left, right]` to `s` produces, for some merged run.
pub open spec fn add_result(s: Seq<(i64, i64)>, o: Seq<(i64, i64)>, left: i64, right: i64)
    -> bool {
    exists|ms: int, me: int| #[trigger] add_shape(s, o, left, right, ms, me)
}

/// Common hypotheses of the merge lemmas: `o` is `s` with the run
/// `s[ms..me]` replaced by the single interval `(nl, nr)`, the pieces before
/// and after stay clear of the query range, and the hull `[nl, nr]` covers
/// exactly the merged run plus `[left, right]`.
pub open spec fn merge_shape(
    s: Seq<(i64, i64)>,
    o: Seq<(i64, i64)>,
    ms: int,
    me: int,
    nl: i64,
    nr: i64,
    left: i64,
    right: i64,
) -> bool {
    &&& wf_seq(s)
    &&& left <= right
    &&& 0 <= ms <= me <= s.len()
    &&& o.len() == s.len() - (me - ms) + 1
    &&& forall|k: int| 0 <= k < ms ==> o[k] == s[k]
    &&& o[ms] == (nl, nr)
    &&& forall|k: int| ms < k < o.len() ==> o[k] == s[k + (me - ms) - 1]
    &&& forall|k: int| 0 <= k < ms ==> (#[trigger] s[k]).1 < left
    &&& forall|k: int| ms <= k < me ==> (#[trigger] s[k]).0 <= right && s[k].1 >= left
    &&& forall|k: int| me <= k < s.len() ==> (#[trigger] s[k]).0 > right
    &&& nl <= left
    &&& right <= nr
    &&& forall|x: int| nl <= x <= nr <==> (left <= x <= right || covered_by(s, ms, me, x))
}

/// After a merge the intervals are again sorted and apart.
#[verifier::rlimit(100)]
proof fn lemma_merge_wf(
    s: Seq<(i64, i64)>,
    o: Seq<(i64, i64)>,
    ms: int,
    me: int,
    nl: i64,
    nr: i64,
    left: i64,
    right: i64,
)
    requires
        merge_shape(s, o, ms, me, nl, nr, left, right),
    ensures
        wf_seq(o),
{
    assert forall|k: int| 0 <= k < o.len() implies (#[trigger] o[k]).0 <= o[k].1 by {
        if k < ms {
            assert(s[k].0 <= s[k].1);
        } else if k == ms {
        } else {
            assert(s[k + (me - ms) - 1].0 <= s[k + (me - ms) - 1].1);
        }
    }
    assert forall|k: int| 0 <= k < o.len() - 1 implies (#[trigger] o[k]).1 < o[k + 1].0 by {
        if k + 1 < ms {
            assert(s[k].1 < s[k + 1].0);
        } else if k + 1 == ms {
            // The piece before the hull ends before `nl`.
            assert(s[k].1 < left);
            if nl < left {
                // If the last untouched interval reached `nl`, its end point
                // would be covered by a merged interval, yet it sits apart
                // from all of them.
                if s[k].1 >= nl {
                    let x = s[k].1 as int;
                    assert(nl <= x <= nr);
                    assert(x < left);
                    assert(covered_by(s, ms, me, x));
                    let k3 = choose|k3: int| ms <= k3 < me
                        && (#[trigger] s[k3]).0 <= x <= s[k3].1;
                    lemma_sorted_apart(s, k, k3);
                    assert(false);
                }
            }
        } else if k == ms {
            // The hull ends before the first untouched interval begins.
            assert(o[k + 1] == s[me]);
            assert(s[me].0 > right);
            if nr > right {
                assert(covered_by(s, ms, me, nr as int));
                let k2 = choose|k2: int| ms <= k2 < me
                    && (#[trigger] s[k2]).0 <= nr <= s[k2].1;
                lemma_sorted_apart(s, k2, me);
                assert(nr < s[me].0);
            }
        } else {
            assert(s[k + (me - ms) - 1].1 < s[k + (me - ms)].0);
        }
    }
}

/// After a merge exactly the old points plus `[left, right]` are covered.
#[verifier::rlimit(100)]
proof fn lemma_merge_covered(
    s: Seq<(i64, i64)>,
    o: Seq<(i64, i64)>,
    ms: int,
    me: int,
    nl: i64,
    nr: i64,
    left: i64,
    right: i64,
)
    requires
        merge_shape(s, o, ms, me, nl, nr, left, right),
    ensures
        forall|x: int| covered_by(o, 0, o.len() as int, x)
            <==> (covered_by(s, 0, s.len() as int, x) || left <= x <= right),
{
    let n = s.len() as int;
    assert forall|x: int| covered_by(o, 0, o.len() as int, x)
        <==> (covered_by(s, 0, n, x) || left <= x <= right) by {
        if covered_by(o, 0, o.len() as int, x) {
            let k = choose|k: int| 0 <= k < o.len() && (#[trigger] o[k]).0 <= x <= o[k].1;
            if k < ms {
                assert(s[k].0 <= x <= s[k].1);
                assert(covered_by(s, 0, n, x));
            } else if k == ms {
                assert(nl <= x <= nr);
                if !(left <= x <= right) {
                    assert(covered_by(s, ms, me, x));
                    let k2 = choose|k2: int| ms <= k2 < me
                        && (#[trigger] s[k2]).0 <= x <= s[k2].1;
                    assert(covered_by(s, 0, n, x));
                }
            } else {
                assert(s[k + (me - ms) - 1].0 <= x <= s[k + (me - ms) - 1].1);
                assert(covered_by(s, 0, n, x));
            }
        }
        if left <= x <= right {
            assert(o[ms].0 <= x <= o[ms].1);
            assert(covered_by(o, 0, o.len() as int, x));
        }
        if covered_by(s, 0, n, x) {
            let k = choose|k: int| 0 <= k < n && (#[trigger] s[k]).0 <= x <= s[k].1;
            if k < ms {
                assert(o[k].0 <= x <= o[k].1);
                assert(covered_by(o, 0, o.len() as int, x));
            } else if k < me {
                assert(covered_by(s, ms, me, x));
                assert(nl <= x <= nr);
                assert(o[ms].0 <= x <= o[ms].1);
                assert(covered_by(o, 0, o.len() as int, x));
            } else {
                assert(o[k - (me - ms) + 1] == s[k]);
                assert(covered_by(o, 0, o.len() as int, x));
            }
        }
    }
}

pub struct DisjointIntervalSet {
    /// The stored intervals, ascending and pairwise apart.
    /// Exposed for specification purposes; callers must only read it.
    pub intervals: Vec<(i64, i64)>,
}

impl DisjointIntervalSet {
    /// The structural invariant.
    pub open spec fn wf(&self) -> bool {
        wf_seq(self.intervals@)
    }

    /// `x` lies in some stored interval.
    pub open spec fn covered(&self, x: int) -> bool {
        covered_by(self.intervals@, 0, self.intervals@.len() as int, x)
    }

    /// `[l, r]` lies entirely inside one stored interval.
    pub open spec fn covers(&self, l: int, r: int) -> bool {
        exists|k: int| 0 <= k < self.intervals@.len()
            && (#[trigger] self.intervals@[k]).0 <= l
            && r <= self.intervals@[k].1
    }

    /// Creates an empty set.
    pub fn new() -> (r: Self)
        ensures
            r.wf(),
            r.intervals@.len() == 0,
            forall|x: int| !r.covered(x),
    {
        DisjointIntervalSet { intervals: Vec::new() }
    }

    /// Adds `[left, right]`, merging it with every stored interval it
    /// overlaps or touches: those are replaced by the one interval spanning
    /// their union (`add_result`), every other interval survives unchanged,
    /// exactly the old points plus the new interval are covered afterwards,
    /// and the intervals are again disjoint.
    #[verifier::loop_isolation(false)]
    #[verifier::rlimit(100)]
    pub fn add(&mut self, left: i64, right: i64)
        requires
            old(self).wf(),
            left <= right,
        ensures
            final(self).wf(),
            add_result(old(self).intervals@, final(self).intervals@, left, right),
            forall|x: int| final(self).covered(x)
                <==> (old(self).covered(x) || left <= x <= right),
    {
        let n: usize = self.intervals.len();
        let mut out: Vec<(i64, i64)> = Vec::new();
        let mut i: usize = 0;
        // Intervals that end before `left` stay as they are.
        while i < n && self.intervals[i].1 < left
            invariant
                i <= n,
                n == self.intervals@.len(),
                self.intervals == old(self).intervals,
                out@ =~= self.intervals@.subrange(0, i as int),
                forall|k: int| 0 <= k < i ==> (#[trigger] self.intervals@[k]).1 < left,
            decreases n - i,
        {
            let iv: (i64, i64) = self.intervals[i];
            out.push(iv);
            proof {
                assert(out@ =~= self.intervals@.subrange(0, i + 1));
            }
            i = i + 1;
        }
        let ghost ms = i as int;
        // Merge every interval that reaches `left` and starts at or before
        // `right` into the hull.
        let mut nl: i64 = left;
        let mut nr: i64 = right;
        while i < n && self.intervals[i].0 <= right
            invariant
                ms <= i <= n,
                n == self.intervals@.len(),
                self.intervals == old(self).intervals,
                nl <= left,
                right <= nr,
                forall|k: int| ms <= k < i ==> (#[trigger] self.intervals@[k]).0 <= right
                    && self.intervals@[k].1 >= left,
                nl == (if i > ms && self.intervals@[ms].0 < left {
                    self.intervals@[ms].0
                } else {
                    left
                }),
                nr == (if i > ms && self.intervals@[i - 1].1 > right {
                    self.intervals@[i - 1].1
                } else {
                    right
                }),
                forall|x: int| nl <= x <= nr <==> (left <= x <= right
                    || covered_by(self.intervals@, ms, i as int, x)),
            decreases n - i,
        {
            let a: i64 = self.intervals[i].0;
            let b: i64 = self.intervals[i].1;
            let ghost nl0 = nl;
            let ghost nr0 = nr;
            if a < nl {
                nl = a;
            }
            if b > nr {
                nr = b;
            }
            proof {
                // starts ascend past the first merged interval and ends
                // ascend throughout, so the hull is pinned by the run's
                // first start and last end
                if i > ms {
                    assert(self.intervals@[i - 1].1 < self.intervals@[i as int].0);
                    assert(a > left);
                    assert(nl == nl0);
                    assert(b > nr0 || nr0 == right);
                }
                assert(nl == (if self.intervals@[ms as int].0 < left {
                    self.intervals@[ms as int].0
                } else {
                    left
                }));
                assert(nr == (if self.intervals@[i as int].1 > right {
                    self.intervals@[i as int].1
                } else {
                    right
                }));
                assert forall|x: int| nl <= x <= nr implies (left <= x <= right
                    || #[trigger] covered_by(self.intervals@, ms, i + 1, x)) by {
                    if nl0 <= x <= nr0 {
                        if covered_by(self.intervals@, ms, i as int, x) {
                            let k = choose|k: int| ms <= k < i
                                && (#[trigger] self.intervals@[k]).0 <= x
                                <= self.intervals@[k].1;
                            assert(covered_by(self.intervals@, ms, i + 1, x));
                        }
                    } else if x < nl0 {
                        // inside the newly merged interval's left part
                        assert(a <= x);
                        assert(x < nl0 <= left);
                        assert(x <= b);
                        assert(covered_by(self.intervals@, ms, i + 1, x));
                    } else {
                        // x > nr0: inside the newly merged interval's right
                        assert(x <= b);
                        assert(x > nr0 >= right >= a);
                        assert(covered_by(self.intervals@, ms, i + 1, x));
                    }
                }
                assert forall|x: int| (left <= x <= right
                    || #[trigger] covered_by(self.intervals@, ms, i + 1, x))
                    implies nl <= x <= nr by {
                    if !(left <= x <= right) {
                        let k = choose|k: int| ms <= k < i + 1
                            && (#[trigger] self.intervals@[k]).0 <= x
                            <= self.intervals@[k].1;
                        if k < i {
                            assert(covered_by(self.intervals@, ms, i as int, x));
                        } else {
                            assert(a <= x <= b);
                        }
                    }
                }
            }
            i = i + 1;
        }
        let ghost me = i as int;
        out.push((nl, nr));
        let ghost cut = out@.len() as int;
        // Intervals that begin after `right` stay as they are.
        while i < n
            invariant
                me <= i <= n,
                n == self.intervals@.len(),
                self.intervals == old(self).intervals,
                cut == ms + 1,
                out@.len() == cut + (i - me),
                out@.subrange(0, ms) =~= self.intervals@.subrange(0, ms),
                out@[ms] == (nl, nr),
                out@.subrange(cut, out@.len() as int)
                    =~= self.intervals@.subrange(me, i as int),
            decreases n - i,
        {
            let iv: (i64, i64) = self.intervals[i];
            out.push(iv);
            proof {
                assert(out@.subrange(0, ms) =~= self.intervals@.subrange(0, ms));
                assert(out@.subrange(cut, out@.len() as int)
                    =~= self.intervals@.subrange(me, i + 1));
            }
            i = i + 1;
        }
        proof {
            let s = self.intervals@;
            let o = out@;
            assert forall|k: int| 0 <= k < ms implies o[k] == s[k] by {
                assert(o.subrange(0, ms)[k] == s.subrange(0, ms)[k]);
            }
            assert forall|k: int| ms < k < o.len() implies
                o[k] == s[k + (me - ms) - 1] by {
                assert(o.subrange(cut, o.len() as int)[k - cut]
                    == s.subrange(me, n as int)[k - cut]);
            }
            assert forall|k: int| me <= k < n implies (#[trigger] s[k]).0 > right by {
                if k > me {
                    lemma_sorted_apart(s, me, k);
                }
            }
            assert(merge_shape(s, o, ms, me, nl, nr, left, right));
            lemma_merge_wf(s, o, ms, me, nl, nr, left, right);
            lemma_merge_covered(s, o, ms, me, nl, nr, left, right);
            assert(add_shape(s, o, left, right, ms, me));
            assert(add_result(s, o, left, right));
        }
        self.intervals = out;
    }

    /// Whether some stored interval intersects `[left, right]`.
    #[verifier::loop_isolation(false)]
    pub fn contains_range(&self, left: i64, right: i64) -> (r: bool)
        requires
            self.wf(),
            left <= right,
        ensures
            r <==> exists|x: int| left <= x <= right && self.covered(x),
    {
        let n: usize = self.intervals.len();
        let mut i: usize = 0;
        while i < n
            invariant
                i <= n,
                n == self.intervals@.len(),
                self.wf(),
                forall|k: int| 0 <= k < i ==> ((#[trigger] self.intervals@[k]).0 > right
                    || self.intervals@[k].1 < left),
            decreases n - i,
        {
            let a: i64 = self.intervals[i].0;
            let b: i64 = self.intervals[i].1;
            if a <= right && b >= left {
                proof {
                    let x: int = if a >= left {
                        a as int
                    } else {
                        left as int
                    };
                    assert(left <= x <= right);
                    assert(self.intervals@[i as int].0 <= x <= self.intervals@[i as int].1);
                    assert(self.covered(x));
                }
                return true;
            }
            i = i + 1;
        }
        proof {
            if exists|x: int| left <= x <= right && self.covered(x) {
                let x = choose|x: int| left <= x <= right && self.covered(x);
                let k = choose|k: int| 0 <= k < self.intervals@.len()
                    && (#[trigger] self.intervals@[k]).0 <= x <= self.intervals@[k].1;
                assert(false);
            }
        }
        false
    }

    /// Whether `[left, right]` lies entirely inside one stored interval.
    #[verifier::loop_isolation(false)]
    pub fn covers_range(&self, left: i64, right: i64) -> (r: bool)
        requires
            self.wf(),
            left <= right,
        ensures
            r <==> self.covers(left as int, right as int),
    {
        let n: usize = self.intervals.len();
        let mut i: usize = 0;
        while i < n
            invariant
                i <= n,
                n == self.intervals@.len(),
                self.wf(),
                forall|k: int| 0 <= k < i ==> ((#[trigger] self.intervals@[k]).0 > left
                    || self.intervals@[k].1 < right),
            decreases n - i,
        {
            let a: i64 = self.intervals[i].0;
            let b: i64 = self.intervals[i].1;
            if a <= left && right <= b {
                return true;
            }
            i = i + 1;
        }
        false
    }

    /// Whether the point lies in some stored interval.
    pub fn contains(&self, point: i64) -> (r: bool)
        requires
            self.wf(),
        ensures
            r <==> self.covered(point as int),
    {
        let r: bool = self.contains_range(point, point);
        proof {
            if self.covered(point as int) {
                assert(exists|x: int| point <= x <= point && self.covered(x));
            }
        }
        r
    }
}

} // verus!
