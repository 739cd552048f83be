//! An isolation forest: an ensemble of random-partition trees. A sample's
//! isolation path length is the depth at which a tree separates it; the raw
//! anomaly score is `exp(-average path length)`, so samples that are easier
//! to isolate score higher.
//!
//! Tree construction is randomized; everything proved here holds for every
//! possible sequence of draws, and scoring is pinned exactly once the trees
//! are fixed.

use vstd::prelude::*;

use crate::fixed::{tdiv, SCALE};
use crate::matrix::Matrix;
use crate::numeric::{exp_neg, exp_neg_spec, ints_of, lemma_tdiv_shrinks, tdiv_i64};
use crate::rng::RandomSource;

verus! {

pub enum IsoTree {
    Leaf,
    Split { feature: usize, threshold: i64, left: Box<IsoTree>, right: Box<IsoTree> },
}

/// Every split tests a feature below `f`.
pub open spec fn iso_features_lt(t: IsoTree, f: int) -> bool
    decreases t,
{
    match t {
        IsoTree::Leaf => true,
        IsoTree::Split { feature, threshold, left, right } => feature < f && iso_features_lt(
            *left,
            f,
        ) && iso_features_lt(*right, f),
    }
}

/// No branch is longer than `d`.
pub open spec fn iso_depth_le(t: IsoTree, d: int) -> bool
    decreases t,
{
    match t {
        IsoTree::Leaf => true,
        IsoTree::Split { feature, threshold, left, right } => d >= 1 && iso_depth_le(*left, d - 1)
            && iso_depth_le(*right, d - 1),
    }
}

/// The depth at which the tree isolates `row`, starting from depth `d`.
pub open spec fn path_len_spec(t: IsoTree, row: Seq<int>, d: int) -> int
    decreases t,
{
    match t {
        IsoTree::Leaf => d,
        IsoTree::Split { feature, threshold, left, right } => {
            if row[feature as int] < threshold as int {
                path_len_spec(*left, row, d + 1)
            } else {
                path_len_spec(*right, row, d + 1)
            }
        },
    }
}

/// Total path length of `row` over a run of trees.
pub open spec fn total_path(trees: Seq<IsoTree>, row: Seq<int>) -> int
    decreases trees.len(),
{
    if trees.len() == 0 {
        0
    } else {
        total_path(trees.drop_last(), row) + path_len_spec(trees.last(), row, 0)
    }
}

/// The raw anomaly score of `row`: `exp(-(total / n_trees))` in fixed
/// point.
pub open spec fn iso_score_spec(trees: Seq<IsoTree>, row: Seq<int>, n_trees: int) -> int {
    exp_neg_spec(tdiv(total_path(trees, row) * (SCALE as int), n_trees))
}

pub struct IsolationForest {
    pub n_trees: usize,
    pub max_samples: usize,
    pub max_depth: usize,
    pub trees: Vec<IsoTree>,
}

impl IsolationForest {
    /// Every tree respects the depth cap and the feature count it was grown
    /// with; the cap is small enough that path sums stay well inside the
    /// fixed-point range.
    pub open spec fn wf(&self, f: int) -> bool {
        &&& 1 <= self.n_trees <= 1000000
        &&& self.max_depth <= 1000000
        &&& self.trees@.len() <= 1000000
        &&& forall|k: int|
            0 <= k < self.trees@.len() ==> iso_depth_le(
                #[trigger] self.trees@[k],
                self.max_depth as int,
            )
        &&& forall|k: int|
            0 <= k < self.trees@.len() ==> iso_features_lt(#[trigger] self.trees@[k], f)
    }

    pub fn new(n_trees: usize, max_samples: usize, max_depth: usize) -> (r: IsolationForest)
        requires
            1 <= n_trees <= 1000000,
            max_depth <= 1000000,
        ensures
            r.n_trees == n_trees,
            r.max_samples == max_samples,
            r.max_depth == max_depth,
            r.trees@.len() == 0,
    {
        IsolationForest { n_trees, max_samples, max_depth, trees: Vec::new() }
    }

    /// Grow `n_trees` random-partition trees, each on a random subsample of
    /// at most `max_samples` rows. Whatever the draws, the grown forest is
    /// well-formed for this feature count and holds exactly `n_trees`
    /// trees.
    pub fn fit(&mut self, features: &Matrix, rng: &mut RandomSource)
        requires
            features.wf(),
            features.cols_spec() > 0,
            1 <= old(self).n_trees <= 1000000,
            old(self).max_depth <= 1000000,
        ensures
            final(self).n_trees == old(self).n_trees,
            final(self).max_samples == old(self).max_samples,
            final(self).max_depth == old(self).max_depth,
            final(self).trees@.len() == old(self).n_trees,
            final(self).wf(features.cols_spec()),
    {
        let n = features.nrows();
        let mut trees: Vec<IsoTree> = Vec::new();
        let mut t: usize = 0;
        while t < self.n_trees
            invariant
                0 <= t <= self.n_trees,
                features.wf(),
                features.cols_spec() > 0,
                n == features@.len(),
                trees@.len() == t,
                forall|k: int|
                    0 <= k < t ==> iso_depth_le(#[trigger] trees@[k], self.max_depth as int),
                forall|k: int|
                    0 <= k < t ==> iso_features_lt(
                        #[trigger] trees@[k],
                        features.cols_spec(),
                    ),
            decreases self.n_trees - t,
        {
            // Random subsample: remove random indices until at most
            // max_samples remain.
            let mut indices: Vec<usize> = Vec::new();
            let mut i: usize = 0;
            while i < n
                invariant
                    0 <= i <= n,
                    indices@.len() == i,
                    forall|k: int| 0 <= k < i ==> (#[trigger] indices@[k]) < n,
                decreases n - i,
            {
                indices.push(i);
                i = i + 1;
            }
            let mut removals = if n > self.max_samples {
                n - self.max_samples
            } else {
                0
            };
            while removals > 0
                invariant
                    forall|k: int|
                        0 <= k < indices@.len() ==> (#[trigger] indices@[k]) < n,
                decreases removals,
            {
                if indices.len() > 0 {
                    let idx = rng.below(indices.len());
                    indices.remove(idx);
                }
                removals = removals - 1;
            }

            let tree = build_iso_tree(features, &indices, 0, self.max_depth, rng);
            trees.push(tree);
            t = t + 1;
        }
        self.trees = trees;
    }

    /// The raw anomaly score of every row, each pinned exactly by the grown
    /// trees: `exp(-average isolation depth)`.
    pub fn predict(&self, features: &Matrix) -> (r: Vec<i64>)
        requires
            features.wf(),
            self.wf(features.cols_spec()),
        ensures
            r@.len() == features@.len(),
            forall|i: int|
                0 <= i < features@.len() ==> (#[trigger] r@[i]) as int == iso_score_spec(
                    self.trees@,
                    features@[i],
                    self.n_trees as int,
                ),
            forall|i: int| 0 <= i < features@.len() ==> 0 <= #[trigger] r@[i] <= SCALE,
    {
        let n = features.nrows();
        let mut out: Vec<i64> = Vec::new();
        let mut i: usize = 0;
        while i < n
            invariant
                0 <= i <= n,
                n == features@.len(),
                features.wf(),
                self.wf(features.cols_spec()),
                out@.len() == i,
                forall|k: int|
                    0 <= k < i ==> (#[trigger] out@[k]) as int == iso_score_spec(
                        self.trees@,
                        features@[k],
                        self.n_trees as int,
                    ),
                forall|k: int| 0 <= k < i ==> 0 <= #[trigger] out@[k] <= SCALE,
            decreases n - i,
        {
            let row = features.row(i);
            let ghost rv = ints_of(row@);
            let mut total: i64 = 0;
            let mut t: usize = 0;
            while t < self.trees.len()
                invariant
                    0 <= t <= self.trees@.len(),
                    features.wf(),
                    self.wf(features.cols_spec()),
                    rv == ints_of(row@),
                    row@.len() == features.cols_spec(),
                    total as int == total_path(self.trees@.take(t as int), rv),
                    0 <= total as int <= (t as int) * 1000000,
                decreases self.trees@.len() - t,
            {
                proof {
                    assert(self.trees@.take(t + 1).drop_last() =~= self.trees@.take(
                        t as int,
                    ));
                }
                let p = path_len(&self.trees[t], row, 0, Ghost(self.max_depth as int));
                total = total + p;
                t = t + 1;
            }
            proof {
                assert(self.trees@.take(self.trees@.len() as int) =~= self.trees@);
            }
            // Average path in millionths, then the exponential kernel.
            let avg = tdiv_i64(total * SCALE, self.n_trees as i64);
            proof {
                lemma_tdiv_shrinks(total as int * 1000000, self.n_trees as int);
            }
            out.push(exp_neg(avg));
            i = i + 1;
        }
        out
    }
}

/// Isolation depth of one sample, by traversal.
fn path_len(t: &IsoTree, sample: &Vec<i64>, d: i64, Ghost(cap): Ghost<int>) -> (r: i64)
    requires
        iso_features_lt(*t, sample@.len() as int),
        iso_depth_le(*t, cap),
        0 <= d,
        0 <= cap,
        d + cap <= i64::MAX,
    ensures
        r as int == path_len_spec(*t, ints_of(sample@), d as int),
        d <= r <= d + cap,
    decreases *t,
{
    match t {
        IsoTree::Leaf => d,
        IsoTree::Split { feature, threshold, left, right } => {
            if sample[*feature] < *threshold {
                path_len(left, sample, d + 1, Ghost(cap - 1))
            } else {
                path_len(right, sample, d + 1, Ghost(cap - 1))
            }
        },
    }
}

/// Grow one random-partition tree over `indices`: a leaf at the depth cap or
/// with at most one sample, otherwise a split on a uniformly random feature
/// at a uniformly random threshold within the observed range.
fn build_iso_tree(
    features: &Matrix,
    indices: &Vec<usize>,
    depth: usize,
    max_depth: usize,
    rng: &mut RandomSource,
) -> (r: IsoTree)
    requires
        features.wf(),
        features.cols_spec() > 0,
        depth <= max_depth,
        forall|k: int| 0 <= k < indices@.len() ==> (#[trigger] indices@[k]) < features@.len(),
    ensures
        iso_features_lt(r, features.cols_spec()),
        iso_depth_le(r, max_depth - depth),
    decreases max_depth - depth,
{
    if depth >= max_depth || indices.len() <= 1 {
        return IsoTree::Leaf;
    }
    let feature = rng.below(features.ncols());

    // The observed range of this feature over the selected samples.
    let mut minv = features.at(indices[0], feature);
    let mut maxv = minv;
    let mut k: usize = 1;
    while k < indices.len()
        invariant
            1 <= k <= indices@.len(),
            features.wf(),
            feature < features.cols_spec(),
            forall|u: int|
                0 <= u < indices@.len() ==> (#[trigger] indices@[u]) < features@.len(),
            minv <= maxv,
        decreases indices@.len() - k,
    {
        let v = features.at(indices[k], feature);
        if v < minv {
            minv = v;
        }
        if v > maxv {
            maxv = v;
        }
        k = k + 1;
    }
    let threshold = rng.between(minv, maxv);

    let mut left: Vec<usize> = Vec::new();
    let mut right: Vec<usize> = Vec::new();
    let mut i: usize = 0;
    while i < indices.len()
        invariant
            0 <= i <= indices@.len(),
            features.wf(),
            feature < features.cols_spec(),
            forall|u: int|
                0 <= u < indices@.len() ==> (#[trigger] indices@[u]) < features@.len(),
            forall|u: int| 0 <= u < left@.len() ==> (#[trigger] left@[u]) < features@.len(),
            forall|u: int|
                0 <= u < right@.len() ==> (#[trigger] right@[u]) < features@.len(),
        decreases indices@.len() - i,
    {
        let idx = indices[i];
        if features.at(idx, feature) < threshold {
            left.push(idx);
        } else {
            right.push(idx);
        }
        i = i + 1;
    }
    if left.len() == 0 || right.len() == 0 {
        return IsoTree::Leaf;
    }
    let l = build_iso_tree(features, &left, depth + 1, max_depth, rng);
    let r = build_iso_tree(features, &right, depth + 1, max_depth, rng);
    IsoTree::Split { feature, threshold, left: Box::new(l), right: Box::new(r) }
}

} // verus!
