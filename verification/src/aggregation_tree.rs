//! A tree structure for efficient aggregation of values over ranges.
//!
//! A complete binary tree over a fixed number of leaves; each internal node
//! holds the combination of its two children, so any power-of-two-resolution
//! summary of the leaves can be read off one tree level without rescanning
//! the raw data.  Point or run updates re-aggregate only the ancestors whose
//! subtree changed, level by level toward the root.

use vstd::prelude::*;
use vstd::arithmetic::power2::pow2;
use vstd::arithmetic::power2::lemma_pow2_unfold;
use vstd::arithmetic::power2::lemma_pow2_adds;
use vstd::arithmetic::power2::lemma_pow2_strictly_increases;
use vstd::arithmetic::power2::lemma_pow2_pos;

verus! {

/// An associative combining operation together with its mathematical meaning.
/// The executable `combine` must return exactly what `combine_spec` says.
pub trait Aggregator<N>: Sized {
    spec fn combine_spec(a: N, b: N) -> N;

    fn combine(a: N, b: N) -> (r: N)
        ensures
            r == Self::combine_spec(a, b),
    ;
}

/// Maximum of two unsigned 32-bit values.  Used for intensity envelopes:
/// sample magnitudes are stored as IEEE single-precision bit patterns, whose
/// unsigned order for non-negative finite values equals the numeric order.
pub struct MaxU32;

impl Aggregator<u32> for MaxU32 {
    open spec fn combine_spec(a: u32, b: u32) -> u32 {
        if a >= b {
            a
        } else {
            b
        }
    }

    fn combine(a: u32, b: u32) -> (r: u32) {
        if a >= b {
            a
        } else {
            b
        }
    }
}

/// The value of combining a whole segment, halving it like the tree does:
/// a single value reduces to itself, a longer (power-of-two length) segment
/// reduces to the combination of its two halves.
pub open spec fn tree_reduce<N, A: Aggregator<N>>(s: Seq<N>) -> N
    decreases s.len(),
{
    if s.len() <= 1 {
        s[0]
    } else {
        A::combine_spec(
            tree_reduce::<N, A>(s.subrange(0, s.len() as int / 2)),
            tree_reduce::<N, A>(s.subrange(s.len() as int / 2, s.len() as int)),
        )
    }
}

/// `i` lies on the path from `j` up to the root (or is `j` itself).
pub open spec fn is_anc(i: int, j: int) -> bool
    decreases j, when j >= 0
{
    i == j || (j > 0 && is_anc(i, (j - 1) / 2))
}

/// `i` is an ancestor-or-self of some node in `[f, l]`.
pub open spec fn range_anc(i: int, f: int, l: int) -> bool {
    exists|j: int| f <= j <= l && is_anc(i, j)
}

/// `f..=l` lies within the row of depth `d` of a complete binary tree.
pub open spec fn band(d: nat, f: int, l: int) -> bool {
    pow2(d) - 1 <= f && l <= 2 * pow2(d) - 2
}

/// `f..=l` lies within one level of the tree.
pub open spec fn same_level(f: int, l: int) -> bool {
    exists|d: nat| #[trigger] band(d, f, l)
}

/// An ancestor's index never exceeds the descendant's.
proof fn lemma_anc_le(i: int, j: int)
    requires
        0 <= j,
        is_anc(i, j),
    ensures
        i <= j,
    decreases j,
{
    if i != j {
        lemma_anc_le(i, (j - 1) / 2);
    }
}

/// `(2q + r) / 2 == q` for `r` in `{0, 1}`.
proof fn lemma_div2(q: int, r: int)
    requires
        0 <= r < 2,
    ensures
        (2 * q + r) / 2 == q,
{
    vstd::arithmetic::div_mod::lemma_fundamental_div_mod_converse(2 * q + r, 2, q, r);
}

/// Integer halving is monotone.
proof fn lemma_half_ordered(x: int, y: int)
    requires
        x <= y,
    ensures
        x / 2 <= y / 2,
{
    vstd::arithmetic::div_mod::lemma_div_is_ordered(x, y, 2);
}

/// A generic range-aggregation structure: `length` conceptual data points
/// (the leaves), padded to a complete binary tree in which every internal
/// node always holds the combination of its two children.
pub struct AggregationTree<N, A: Aggregator<N>> {
    /// The flattened tree: internal nodes first, then the padded leaf row.
    /// Exposed for specification purposes; callers must only read it.
    pub data: Vec<N>,
    /// Total number of tree levels.
    pub layers: u32,
    /// Index in `data` where the leaf row begins.
    pub leaf_start: usize,
    /// The number of conceptual data points.
    pub length: usize,
    /// The combining operation, a zero-sized witness.
    pub aggregator: core::marker::PhantomData<A>,
}

impl<N: Copy, A: Aggregator<N>> AggregationTree<N, A> {
    /// Number of leaf slots (including padding): the power of two at or
    /// above `length`.
    pub open spec fn cap(&self) -> int {
        self.leaf_start + 1
    }

    /// Shape of a well-formed tree.
    pub open spec fn wf_shape(&self) -> bool {
        &&& 2 <= self.length
        &&& self.length <= self.cap()
        &&& 2 <= self.layers <= 29
        &&& self.cap() == pow2((self.layers - 1) as nat)
        &&& self.data.len() == 2 * self.cap() - 1
    }

    /// Node `i` of the flattened tree `s` holds the combination of its
    /// children.
    pub open spec fn seq_node_ok(s: Seq<N>, i: int) -> bool {
        s[i] == A::combine_spec(s[2 * i + 1], s[2 * i + 2])
    }

    /// Internal node `i` holds the combination of its children.
    pub open spec fn node_ok(&self, i: int) -> bool {
        Self::seq_node_ok(self.data@, i)
    }

    /// The structural invariant: well shaped, and no internal node is stale.
    pub open spec fn wf(&self) -> bool {
        &&& self.wf_shape()
        &&& forall|i: int| 0 <= i < self.leaf_start ==> self.node_ok(i)
    }

    /// The conceptual data points.
    pub open spec fn leaves(&self) -> Seq<N> {
        self.data@.subrange(self.leaf_start as int, self.leaf_start + self.length)
    }

    /// The whole (padded) leaf row.
    pub open spec fn padded(&self) -> Seq<N> {
        self.data@.subrange(self.leaf_start as int, self.data.len() as int)
    }

    /// Creates a tree over `length` data points, every node holding
    /// `initial`.  The initial value must be a fixed point of the combining
    /// operation, so that an untouched tree is already consistent.
    pub fn new(length: usize, initial: N) -> (t: Self)
        requires
            2 <= length <= 0x1000_0000,
            A::combine_spec(initial, initial) == initial,
        ensures
            t.wf(),
            t.length == length,
            t.leaves() =~= Seq::new(length as nat, |i: int| initial),
    {
        let mut cap: usize = 2;
        let mut layers: u32 = 2;
        proof {
            assert(pow2(1) == 2) by {
                vstd::arithmetic::power2::lemma2_to64();
            }
        }
        while cap < length
            invariant
                2 <= cap <= 0x1000_0000,
                2 <= layers <= 29,
                cap == pow2((layers - 1) as nat),
                2 <= length <= 0x1000_0000,
                cap <= 2 * length,
            decreases 2 * length - cap,
        {
            proof {
                lemma_pow2_unfold(layers as nat);
                // cap < length <= 2^28, so doubling stays within bounds and
                // the layer count stays small.
                vstd::arithmetic::power2::lemma2_to64();
                if layers >= 29 {
                    lemma_pow2_strictly_increases(28, (layers - 1) as nat);
                }
            }
            cap = cap * 2;
            layers = layers + 1;
        }
        let leaf_start: usize = cap - 1;
        let total: usize = 2 * cap - 1;
        let mut data: Vec<N> = Vec::new();
        let mut k: usize = 0;
        while k < total
            invariant
                k <= total,
                data@.len() == k,
                forall|j: int| 0 <= j < k ==> data@[j] == initial,
            decreases total - k,
        {
            data.push(initial);
            k = k + 1;
        }
        let t = AggregationTree {
            data,
            layers,
            leaf_start,
            length,
            aggregator: core::marker::PhantomData,
        };
        proof {
            assert forall|i: int| 0 <= i < t.leaf_start implies t.node_ok(i) by {
                assert(t.data[i] == initial);
                assert(t.data[2 * i + 1] == initial);
                assert(t.data[2 * i + 2] == initial);
            }
        }
        t
    }

    /// The node at level `e`, position `j` (index `pow2(e) - 1 + j`) holds
    /// the reduction of the `pow2(layers - 1 - e)` padded leaves its subtree
    /// covers.
    proof fn lemma_node_value(&self, e: nat, j: int)
        requires
            self.wf(),
            e <= self.layers - 1,
            0 <= j < pow2(e),
        ensures
            pow2(e) - 1 + j < self.data.len(),
            self.data[pow2(e) - 1 + j] == tree_reduce::<N, A>(
                self.padded().subrange(
                    j * pow2((self.layers - 1 - e) as nat),
                    (j + 1) * pow2((self.layers - 1 - e) as nat),
                ),
            ),
        decreases self.layers - 1 - e,
    {
        let layers = self.layers as nat;
        let cap = self.cap();
        let sz = pow2((layers - 1 - e) as nat) as int;
        let i = pow2(e) - 1 + j;
        lemma_pow2_pos(e);
        lemma_pow2_pos((layers - 1 - e) as nat);
        lemma_pow2_adds(e, (layers - 1 - e) as nat);
        assert(pow2(e) * pow2((layers - 1 - e) as nat) == cap);
        assert((j + 1) * sz <= pow2(e) * sz) by (nonlinear_arith)
            requires
                j + 1 <= pow2(e),
                sz >= 1,
        ;
        assert(0 <= j * sz) by (nonlinear_arith)
            requires
                j >= 0,
                sz >= 1,
        ;
        assert(j * sz < (j + 1) * sz) by (nonlinear_arith)
            requires
                sz >= 1,
        ;
        if e == layers - 1 {
            assert(sz == 1) by {
                vstd::arithmetic::power2::lemma2_to64();
            }
            assert(i == self.leaf_start + j);
            let s = self.padded().subrange(j * sz, (j + 1) * sz);
            assert(j * sz == j && (j + 1) * sz == j + 1) by (nonlinear_arith)
                requires
                    sz == 1,
            ;
            assert(s.len() == 1);
            assert(s[0] == self.padded()[j]);
            assert(tree_reduce::<N, A>(s) == s[0]);
        } else {
            lemma_pow2_unfold((e + 1) as nat);
            lemma_pow2_unfold((layers - 1 - e) as nat);
            let szc = pow2((layers - 2 - e) as nat) as int;
            assert(sz == 2 * szc);
            if ((e + 1) as nat) < ((layers - 1) as nat) {
                lemma_pow2_strictly_increases((e + 1) as nat, (layers - 1) as nat);
            }
            assert(pow2((e + 1) as nat) <= cap);
            assert(i < self.leaf_start);
            assert(self.node_ok(i));
            assert(2 * i + 1 == pow2((e + 1) as nat) - 1 + 2 * j);
            assert(2 * i + 2 == pow2((e + 1) as nat) - 1 + (2 * j + 1));
            assert(0 <= 2 * j < pow2((e + 1) as nat));
            assert(2 * j + 1 < pow2((e + 1) as nat));
            self.lemma_node_value((e + 1) as nat, 2 * j);
            self.lemma_node_value((e + 1) as nat, 2 * j + 1);
            assert((2 * j) * szc == j * sz && (2 * j + 1) * szc == j * sz + szc
                && (2 * j + 2) * szc == (j + 1) * sz) by (nonlinear_arith)
                requires
                    sz == 2 * szc,
            ;
            let s = self.padded().subrange(j * sz, (j + 1) * sz);
            assert((j + 1) * sz == j * sz + sz) by (nonlinear_arith);
            assert(s.len() == sz);
            assert(szc == sz / 2);
            assert(s.subrange(0, szc) =~= self.padded().subrange(j * sz, j * sz + szc));
            assert(s.subrange(szc, sz) =~= self.padded().subrange(j * sz + szc, (j + 1) * sz));
            assert(tree_reduce::<N, A>(s) == A::combine_spec(
                tree_reduce::<N, A>(s.subrange(0, szc)),
                tree_reduce::<N, A>(s.subrange(szc, sz)),
            ));
        }
    }

    /// Retrieves a copy of the tree level whose entries each summarize
    /// `resolution` consecutive data points: entry `j` is the reduction of
    /// leaves `[j * resolution, (j + 1) * resolution)`.
    pub fn get_level(&self, resolution: usize) -> (r: Vec<N>)
        requires
            self.wf(),
            exists|k: nat| k <= 28 && resolution == pow2(k),
            resolution <= self.length,
        ensures
            r@.len() == self.length as int / resolution as int,
            forall|j: int| 0 <= j < r@.len() ==> r@[j] == tree_reduce::<N, A>(
                #[trigger] self.leaves().subrange(
                    j * resolution,
                    (j + 1) * resolution,
                ),
            ),
    {
        let ghost k = choose|k: nat| k <= 28 && resolution == pow2(k);
        // Find the exponent of `resolution`.
        let mut kk: u32 = 0;
        let mut p: usize = 1;
        proof {
            lemma_pow2_pos(k);
            assert(pow2(0) == 1) by {
                vstd::arithmetic::power2::lemma2_to64();
            }
        }
        while p < resolution
            invariant
                p == pow2(kk as nat),
                kk <= k <= 28,
                resolution == pow2(k),
                p <= resolution,
            decreases resolution - p,
        {
            proof {
                lemma_pow2_pos(kk as nat);
                assert(kk < k);
                lemma_pow2_unfold((kk + 1) as nat);
                if (kk as nat) + 1 < k {
                    lemma_pow2_strictly_increases((kk + 1) as nat, k);
                }
                assert(pow2((kk + 1) as nat) <= resolution);
            }
            p = p * 2;
            kk = kk + 1;
        }
        proof {
            if (kk as nat) < k {
                lemma_pow2_strictly_increases(kk as nat, k);
            }
            assert(kk == k);
        }
        // The level whose nodes each cover `resolution` leaves.
        proof {
            if (k as int) > self.layers - 1 {
                lemma_pow2_strictly_increases((self.layers - 1) as nat, k);
                assert(resolution > self.cap());
                assert(false);
            }
            assert(k <= self.layers - 1);
        }
        let e: u32 = self.layers - 1 - kk;
        // level_start = pow2(e) - 1
        let mut q: usize = 1;
        let mut i2: u32 = 0;
        proof {
            if (e as nat) < 28 {
                lemma_pow2_strictly_increases(e as nat, 28);
            }
            assert(pow2(28) == 0x1000_0000) by {
                vstd::arithmetic::power2::lemma2_to64();
            }
            assert(pow2(e as nat) <= 0x1000_0000);
        }
        while i2 < e
            invariant
                i2 <= e,
                e <= 28,
                q == pow2(i2 as nat),
                pow2(e as nat) <= 0x1000_0000,
            decreases e - i2,
        {
            proof {
                lemma_pow2_pos(i2 as nat);
                lemma_pow2_unfold((i2 + 1) as nat);
                if (i2 as nat) + 1 < e as nat {
                    lemma_pow2_strictly_increases((i2 + 1) as nat, e as nat);
                }
                assert(pow2((i2 + 1) as nat) <= pow2(e as nat));
            }
            q = q * 2;
            i2 = i2 + 1;
        }
        proof {
            lemma_pow2_pos(e as nat);
        }
        let level_start: usize = q - 1;
        let count: usize = self.length / resolution;
        let mut out: Vec<N> = Vec::new();
        let mut j: usize = 0;
        proof {
            lemma_pow2_pos(e as nat);
            lemma_pow2_pos(k);
            lemma_pow2_adds(e as nat, k);
            assert(pow2(e as nat) * pow2(k) == self.cap());
        }
        while j < count
            invariant
                self.wf(),
                j <= count,
                count == self.length as int / resolution as int,
                level_start == pow2(e as nat) - 1,
                resolution == pow2(k),
                k == self.layers - 1 - e,
                e <= self.layers - 1,
                pow2(e as nat) * pow2(k) == self.cap(),
                resolution >= 1,
                resolution <= self.length,
                out@.len() == j,
                forall|j2: int| 0 <= j2 < j ==> out@[j2] == tree_reduce::<N, A>(
                    #[trigger] self.leaves().subrange(
                        j2 * resolution,
                        (j2 + 1) * resolution,
                    ),
                ),
            decreases count - j,
        {
            proof {
                // count * resolution <= length, so node position j is valid.
                vstd::arithmetic::div_mod::lemma_remainder_lower(
                    self.length as int, resolution as int);
                assert((j + 1) * resolution <= count * resolution) by (nonlinear_arith)
                    requires
                        j + 1 <= count,
                        resolution >= 1,
                ;
                assert(count * resolution <= self.length) by (nonlinear_arith)
                    requires
                        count == self.length as int / resolution as int,
                        resolution >= 1,
                        self.length as int / resolution as int * resolution as int
                            <= self.length,
                ;
                assert(j < pow2(e as nat)) by (nonlinear_arith)
                    requires
                        (j + 1) * resolution <= self.cap(),
                        pow2(e as nat) * pow2(k) == self.cap(),
                        resolution == pow2(k),
                        resolution >= 1,
                        j >= 0,
                ;
                self.lemma_node_value(e as nat, j as int);
                let a = j * (resolution as int);
                let b = (j + 1) * (resolution as int);
                assert(a == j * resolution && b == (j + 1) * resolution);
                assert(0 <= a <= b) by (nonlinear_arith)
                    requires
                        a == j * (resolution as int),
                        b == (j + 1) * (resolution as int),
                        j >= 0,
                        resolution >= 1,
                ;
                assert(0 <= a <= b <= self.length);
                assert forall|x: int| 0 <= x < b - a implies
                    self.leaves().subrange(a, b)[x] == self.padded().subrange(a, b)[x] by {
                    assert(self.leaves().subrange(a, b)[x]
                        == self.data@[self.leaf_start + a + x]);
                    assert(self.padded().subrange(a, b)[x]
                        == self.data@[self.leaf_start + a + x]);
                }
                assert(self.leaves().subrange(a, b) =~= self.padded().subrange(a, b));
            }
            out.push(self.data[level_start + j]);
            j = j + 1;
        }
        out
    }

    /// What a slot of the leaf row must hold after writing `values` at
    /// `first_leaf`: the written value inside the run, the old value outside.
    pub open spec fn leaf_target(old_data: Seq<N>, values: Seq<N>, first_leaf: int, x: int) -> N {
        if first_leaf <= x < first_leaf + values.len() {
            values[x - first_leaf]
        } else {
            old_data[x]
        }
    }

    /// The capacity never exceeds the largest supported length.
    proof fn lemma_cap_bound(&self)
        requires
            self.wf_shape(),
        ensures
            self.cap() <= 0x1000_0000,
    {
        if ((self.layers - 1) as nat) < 28 {
            lemma_pow2_strictly_increases((self.layers - 1) as nat, 28);
        }
        assert(pow2(28) == 0x1000_0000) by {
            vstd::arithmetic::power2::lemma2_to64();
        }
    }

    /// Recomputes every node of one row range `f..=l` from its children,
    /// touching nothing else.
    #[verifier::loop_isolation(false)]
    fn sweep_level(&mut self, f: usize, l: usize)
        requires
            old(self).wf_shape(),
            f <= l < old(self).leaf_start,
            same_level(f as int, l as int),
        ensures
            final(self).wf_shape(),
            final(self).layers == old(self).layers,
            final(self).leaf_start == old(self).leaf_start,
            final(self).length == old(self).length,
            final(self).data@.len() == old(self).data@.len(),
            forall|y: int| 0 <= y < old(self).data@.len() && !(f <= y <= l)
                ==> final(self).data@[y] == old(self).data@[y],
            forall|n: int| f <= n <= l ==> final(self).node_ok(n),
    {
        proof {
            self.lemma_cap_bound();
            // Children of this row lie strictly beyond it.
            let d = choose|d: nat| band(d, f as int, l as int);
            assert(2 * f + 1 > l);
        }
        let mut x: usize = f;
        while x <= l
            invariant
                f <= x <= l + 1,
                self.layers == old(self).layers,
                self.leaf_start == old(self).leaf_start,
                self.length == old(self).length,
                self.data@.len() == old(self).data@.len(),
                forall|y: int| 0 <= y < old(self).data@.len() && !(f <= y < x)
                    ==> self.data@[y] == old(self).data@[y],
                forall|n: int| f <= n < x ==> Self::seq_node_ok(self.data@, n),
            decreases l + 1 - x,
        {
            let left: N = self.data[2 * x + 1];
            let right: N = self.data[2 * x + 2];
            let combined: N = A::combine(left, right);
            let ghost d0 = self.data@;
            self.data[x] = combined;
            proof {
                assert forall|n: int| f <= n < x + 1 implies
                    Self::seq_node_ok(self.data@, n) by {
                    if n == x {
                        assert(self.data@[2 * x + 1] == d0[2 * x + 1]);
                        assert(self.data@[2 * x + 2] == d0[2 * x + 2]);
                    } else {
                        assert(Self::seq_node_ok(d0, n));
                        assert(2 * n + 1 > l);
                        assert(self.data@[n] == d0[n]);
                        assert(self.data@[2 * n + 1] == d0[2 * n + 1]);
                        assert(self.data@[2 * n + 2] == d0[2 * n + 2]);
                    }
                }
            }
            x = x + 1;
        }
        proof {
            assert forall|n: int| f <= n <= l implies self.node_ok(n) by {
                assert(Self::seq_node_ok(self.data@, n));
            }
        }
    }

    /// Updates a run of data points starting at `start` and re-aggregates
    /// every ancestor whose subtree changed, level by level toward the root.
    /// Every other data point keeps its value, and the tree stays consistent.
    ///
    /// A write beyond `length` is a programmer error, ruled out here by the
    /// precondition: callers that may run past the end (the audio sampler
    /// does) clamp their indices first, so an out-of-range unit is dropped
    /// before it ever reaches the tree rather than trapping inside it.
    #[verifier::loop_isolation(false)]
    pub fn set(&mut self, values: &[N], start: usize)
        requires
            old(self).wf(),
            start + values@.len() <= old(self).length,
        ensures
            final(self).wf(),
            final(self).length == old(self).length,
            final(self).layers == old(self).layers,
            final(self).leaf_start == old(self).leaf_start,
            forall|i: int| 0 <= i < old(self).length ==> final(self).leaves()[i] == (
                if start <= i < start + values@.len() {
                    values@[i - start]
                } else {
                    old(self).leaves()[i]
                }),
    {
        proof {
            self.lemma_cap_bound();
        }
        if values.len() == 0 {
            return;
        }
        let first_leaf: usize = self.leaf_start + start;
        let vlen: usize = values.len();
        let mut i: usize = 0;
        while i < vlen
            invariant
                i <= vlen,
                self.layers == old(self).layers,
                self.leaf_start == old(self).leaf_start,
                self.length == old(self).length,
                self.data@.len() == old(self).data@.len(),
                forall|x: int| 0 <= x < self.data@.len()
                    && !(first_leaf <= x < first_leaf + i)
                    ==> self.data@[x] == old(self).data@[x],
                forall|x: int| first_leaf <= x < first_leaf + i
                    ==> self.data@[x] == values@[x - first_leaf],
            decreases vlen - i,
        {
            let v: N = values[i];
            self.data[first_leaf + i] = v;
            i = i + 1;
        }
        let last_leaf: usize = first_leaf + vlen - 1;
        let ghost od = old(self).data@;
        let ghost vs = values@;
        proof {
            lemma_pow2_unfold((self.layers - 1) as nat);
        }
        let ghost half0 = pow2((self.layers - 2) as nat) as int;
        let mut f: usize = (first_leaf - 1) / 2;
        let mut l: usize = (last_leaf - 1) / 2;
        proof {
            // Parents of the written leaves lie in one row: the band of
            // depth layers - 2.
            lemma_half_ordered(2 * (half0 - 1), first_leaf - 1);
            lemma_div2(half0 - 1, 0);
            lemma_half_ordered(last_leaf - 1, 2 * (2 * half0 - 2) + 1);
            lemma_div2(2 * half0 - 2, 1);
            lemma_half_ordered(first_leaf - 1, last_leaf - 1);
            assert(band((self.layers - 2) as nat, f as int, l as int));
            // Every internal node outside the dirty ancestor set is intact.
            assert forall|n: int| 0 <= n < self.leaf_start
                && !range_anc(n, f as int, l as int) implies
                Self::seq_node_ok(self.data@, n) by {
                if first_leaf <= 2 * n + 1 <= last_leaf {
                    lemma_half_ordered(first_leaf - 1, 2 * n);
                    lemma_half_ordered(2 * n, last_leaf - 1);
                    lemma_div2(n, 0);
                    assert(f <= n <= l);
                    assert(is_anc(n, n));
                    assert(false);
                }
                if first_leaf <= 2 * n + 2 <= last_leaf {
                    lemma_half_ordered(first_leaf - 1, 2 * n + 1);
                    lemma_half_ordered(2 * n + 1, last_leaf - 1);
                    lemma_div2(n, 1);
                    assert(f <= n <= l);
                    assert(is_anc(n, n));
                    assert(false);
                }
                assert(old(self).node_ok(n));
                assert(Self::seq_node_ok(old(self).data@, n));
                assert(self.data@[n] == old(self).data@[n]);
                assert(self.data@[2 * n + 1] == old(self).data@[2 * n + 1]);
                assert(self.data@[2 * n + 2] == old(self).data@[2 * n + 2]);
            }
        }
        while f > 0
            invariant
                self.layers == old(self).layers,
                self.leaf_start == old(self).leaf_start,
                self.length == old(self).length,
                self.data@.len() == old(self).data@.len(),
                f <= l < self.leaf_start,
                same_level(f as int, l as int),
                forall|x: int| self.leaf_start <= x < self.data@.len()
                    ==> self.data@[x] == Self::leaf_target(od, vs, first_leaf as int, x),
                forall|n: int| 0 <= n < self.leaf_start
                    && !range_anc(n, f as int, l as int)
                    ==> Self::seq_node_ok(self.data@, n),
            decreases f,
        {
            let ghost pre = self.data@;
            self.sweep_level(f, l);
            proof {
                let fi = f as int;
                let li = l as int;
                let f2 = (fi - 1) / 2;
                let l2 = (li - 1) / 2;
                let d = choose|d: nat| band(d, fi, li);
                assert(pow2(0) == 1) by {
                    vstd::arithmetic::power2::lemma2_to64();
                }
                assert(d >= 1);
                lemma_pow2_unfold(d);
                // The parents' band, one row up.
                lemma_half_ordered(2 * (pow2((d - 1) as nat) - 1), fi - 1);
                lemma_div2(pow2((d - 1) as nat) - 1, 0);
                lemma_half_ordered(li - 1, 2 * (2 * pow2((d - 1) as nat) - 2) + 1);
                lemma_div2(2 * pow2((d - 1) as nat) - 2, 1);
                lemma_half_ordered(fi - 1, li - 1);
                assert(band((d - 1) as nat, f2, l2));
                assert(same_level(f2, l2));
                // The dirty set shrinks to the parents' range.
                assert forall|n: int| 0 <= n < self.leaf_start
                    && !range_anc(n, f2, l2) implies
                    Self::seq_node_ok(self.data@, n) by {
                    if fi <= n <= li {
                        // refreshed by the sweep
                        assert(self.node_ok(n));
                    } else {
                        // untouched by the sweep, and its children cannot be
                        // in the swept row, else it would be a dirty parent
                        if fi <= 2 * n + 1 <= li {
                            lemma_div2(n, 0);
                            lemma_half_ordered(fi - 1, 2 * n);
                            lemma_half_ordered(2 * n, li - 1);
                            assert(f2 <= n <= l2);
                            assert(is_anc(n, n));
                            assert(false);
                        }
                        if fi <= 2 * n + 2 <= li {
                            lemma_div2(n, 1);
                            lemma_half_ordered(fi - 1, 2 * n + 1);
                            lemma_half_ordered(2 * n + 1, li - 1);
                            assert(f2 <= n <= l2);
                            assert(is_anc(n, n));
                            assert(false);
                        }
                        if range_anc(n, fi, li) {
                            let j = choose|j: int| fi <= j <= li && is_anc(n, j);
                            assert(n != j);
                            assert(is_anc(n, (j - 1) / 2));
                            lemma_half_ordered(fi - 1, j - 1);
                            lemma_half_ordered(j - 1, li - 1);
                            assert(range_anc(n, f2, l2));
                            assert(false);
                        }
                        assert(Self::seq_node_ok(pre, n));
                        assert(self.data@[n] == pre[n]);
                        assert(self.data@[2 * n + 1] == pre[2 * n + 1]);
                        assert(self.data@[2 * n + 2] == pre[2 * n + 2]);
                    }
                }
            }
            f = (f - 1) / 2;
            l = (l - 1) / 2;
        }
        // f == 0: the band argument pins l to the root as well.
        proof {
            let d = choose|d: nat| band(d, f as int, l as int);
            lemma_pow2_pos(d);
            if d >= 1 {
                lemma_pow2_unfold(d);
                lemma_pow2_pos((d - 1) as nat);
                assert(pow2(d) - 1 >= 1);
                assert(false);
            }
            assert(l == 0);
        }
        let ghost pre = self.data@;
        self.sweep_level(0, 0);
        proof {
            assert forall|n: int| 0 <= n < self.leaf_start implies self.node_ok(n) by {
                if n != 0 {
                    if range_anc(n, 0, 0) {
                        lemma_anc_le(n, 0);
                        assert(false);
                    }
                    assert(Self::seq_node_ok(pre, n));
                    assert(self.data@[n] == pre[n]);
                    assert(self.data@[2 * n + 1] == pre[2 * n + 1]);
                    assert(self.data@[2 * n + 2] == pre[2 * n + 2]);
                } else {
                    assert(self.node_ok(0));
                }
            }
        }
        proof {
            assert forall|i2: int| 0 <= i2 < old(self).length
                implies self.leaves()[i2] == (
                if start <= i2 < start + values@.len() {
                    values@[i2 - start]
                } else {
                    old(self).leaves()[i2]
                }) by {
                assert(self.data@[self.leaf_start + i2]
                    == Self::leaf_target(od, vs, first_leaf as int, self.leaf_start + i2));
            }
        }
    }

    /// A resolution-one level is the data itself: each entry of
    /// `get_level(1)` reduces a single leaf, so it equals the last value
    /// written there.
    pub proof fn lemma_level_one_is_leaves(&self)
        requires
            self.wf(),
        ensures
            forall|j: int| 0 <= j < self.length ==> tree_reduce::<N, A>(
                #[trigger] self.leaves().subrange(j, j + 1)) == self.leaves()[j],
    {
        assert forall|j: int| 0 <= j < self.length implies tree_reduce::<N, A>(
            #[trigger] self.leaves().subrange(j, j + 1)) == self.leaves()[j] by {
            let s = self.leaves().subrange(j, j + 1);
            assert(s.len() == 1);
            assert(s[0] == self.leaves()[j]);
        }
    }

    /// Reads one data point.
    pub fn at(&self, index: usize) -> (r: N)
        requires
            self.wf(),
            index < self.length,
        ensures
            r == self.leaves()[index as int],
    {
        self.data[self.leaf_start + index]
    }

    /// Returns a copy of the raw per-unit array.
    pub fn get_leaf_level(&self) -> (r: Vec<N>)
        requires
            self.wf(),
        ensures
            r@ =~= self.leaves(),
    {
        let mut out: Vec<N> = Vec::new();
        let mut i: usize = 0;
        while i < self.length
            invariant
                self.wf(),
                i <= self.length,
                out@ =~= self.leaves().subrange(0, i as int),
            decreases self.length - i,
        {
            out.push(self.data[self.leaf_start + i]);
            proof {
                assert(out@ =~= self.leaves().subrange(0, i + 1));
            }
            i = i + 1;
        }
        out
    }
}

} // verus!
