//! A randomized-threshold greedy regression tree. Thresholds are drawn from
//! the injected random source, so the fitted tree is not pinned to one
//! shape; what is proved holds for every possible sequence of draws:
//! every leaf value is a mean of training targets, and so never leaves
//! `[min(y), max(y)]`.

use vstd::prelude::*;

use crate::errors::MlError;
use crate::fixed::{imax, imin};
use crate::fixed::{fx_add, fx_mul, fx_sub};
use crate::matrix::Matrix;
use crate::numeric::{ints_of, lemma_mean_in_range, mean_of};
use crate::rng::RandomSource;

verus! {

pub enum TreeNode {
    Leaf { value: i64 },
    Split { feature: usize, threshold: i64, left: Box<TreeNode>, right: Box<TreeNode> },
}

/// Every leaf value lies in `[lo, hi]`.
pub open spec fn values_in(t: TreeNode, lo: int, hi: int) -> bool
    decreases t,
{
    match t {
        TreeNode::Leaf { value } => lo <= value as int <= hi,
        TreeNode::Split { feature, threshold, left, right } => values_in(*left, lo, hi)
            && values_in(*right, lo, hi),
    }
}

/// Every split tests a feature below `f`.
pub open spec fn features_lt(t: TreeNode, f: int) -> bool
    decreases t,
{
    match t {
        TreeNode::Leaf { value } => true,
        TreeNode::Split { feature, threshold, left, right } => feature < f && features_lt(
            *left,
            f,
        ) && features_lt(*right, f),
    }
}

/// The traversal: branch left when `row[feature] < threshold`.
pub open spec fn tree_pred(t: TreeNode, row: Seq<int>) -> int
    decreases t,
{
    match t {
        TreeNode::Leaf { value } => value as int,
        TreeNode::Split { feature, threshold, left, right } => {
            if row[feature as int] < threshold as int {
                tree_pred(*left, row)
            } else {
                tree_pred(*right, row)
            }
        },
    }
}

/// Law: a prediction of a tree whose leaves lie in `[lo, hi]` lies in
/// `[lo, hi]` itself — traversal only ever returns a leaf value.
pub proof fn lemma_tree_pred_in_range(t: TreeNode, row: Seq<int>, lo: int, hi: int)
    requires
        values_in(t, lo, hi),
    ensures
        lo <= tree_pred(t, row) <= hi,
    decreases t,
{
    match t {
        TreeNode::Leaf { value } => {},
        TreeNode::Split { feature, threshold, left, right } => {
            if row[feature as int] < threshold as int {
                lemma_tree_pred_in_range(*left, row, lo, hi);
            } else {
                lemma_tree_pred_in_range(*right, row, lo, hi);
            }
        },
    }
}

/// Smallest element of a non-empty sequence (0 for an empty one).
pub open spec fn seq_min(s: Seq<int>) -> int
    decreases s.len(),
{
    if s.len() == 0 {
        0
    } else if s.len() == 1 {
        s[0]
    } else {
        imin(seq_min(s.drop_last()), s.last())
    }
}

/// Largest element of a non-empty sequence (0 for an empty one).
pub open spec fn seq_max(s: Seq<int>) -> int
    decreases s.len(),
{
    if s.len() == 0 {
        0
    } else if s.len() == 1 {
        s[0]
    } else {
        imax(seq_max(s.drop_last()), s.last())
    }
}

pub proof fn lemma_seq_min_max_bounds(s: Seq<int>)
    ensures
        forall|i: int| 0 <= i < s.len() ==> seq_min(s) <= #[trigger] s[i] <= seq_max(s),
    decreases s.len(),
{
    if s.len() <= 1 {
    } else {
        lemma_seq_min_max_bounds(s.drop_last());
        assert forall|i: int| 0 <= i < s.len() implies seq_min(s) <= #[trigger] s[i]
            <= seq_max(s) by {
            if i < s.len() - 1 {
                assert(s.drop_last()[i] == s[i]);
            }
        }
    }
}

/// A randomized-threshold greedy regression tree.
pub struct DecisionTreeRegressor {
    pub max_depth: usize,
    pub min_samples_split: usize,
    pub root: Option<TreeNode>,
    pub n_features: usize,
}

impl DecisionTreeRegressor {
    /// A fitted tree only tests features that exist.
    pub open spec fn wf(&self) -> bool {
        match self.root {
            Some(t) => features_lt(t, self.n_features as int),
            None => true,
        }
    }

    pub fn new(max_depth: usize, min_samples_split: usize) -> (r: DecisionTreeRegressor)
        ensures
            r.max_depth == max_depth,
            r.min_samples_split == min_samples_split,
            r.root is None,
            r.wf(),
    {
        DecisionTreeRegressor { max_depth, min_samples_split, root: None, n_features: 0 }
    }

    /// Grow a tree on `(x, y)`. Fails exactly on a zero-row input. Whatever
    /// thresholds the random source yields, every leaf value of the grown
    /// tree is a mean of targets and lies in `[min(y), max(y)]`.
    pub fn fit(&mut self, x: &Matrix, y: &Vec<i64>, rng: &mut RandomSource) -> (r: Result<
        (),
        MlError,
    >)
        requires
            x.wf(),
            y@.len() == x@.len(),
        ensures
            final(self).max_depth == old(self).max_depth,
            final(self).min_samples_split == old(self).min_samples_split,
            x@.len() == 0 ==> r == Err::<(), MlError>(MlError::EmptyInput) && *final(self)
                == *old(self),
            x@.len() > 0 ==> {
                &&& r == Ok::<(), MlError>(())
                &&& final(self).wf()
                &&& final(self).n_features == x.cols_spec()
                &&& match final(self).root {
                    Some(t) => values_in(
                        t,
                        seq_min(ints_of(y@)),
                        seq_max(ints_of(y@)),
                    ),
                    None => false,
                }
            },
    {
        if x.nrows() == 0 {
            return Err(MlError::EmptyInput);
        }
        let n = x.nrows();
        let mut indices: Vec<usize> = Vec::new();
        let mut i: usize = 0;
        while i < n
            invariant
                0 <= i <= n,
                indices@.len() == i,
                forall|k: int| 0 <= k < i ==> (#[trigger] indices@[k]) == k,
            decreases n - i,
        {
            indices.push(i);
            i = i + 1;
        }
        proof {
            lemma_seq_min_max_bounds(ints_of(y@));
            assert forall|k: int| 0 <= k < indices@.len() implies seq_min(ints_of(y@))
                <= y@[#[trigger] indices@[k] as int] as int <= seq_max(ints_of(y@)) by {
                assert(ints_of(y@)[indices@[k] as int] == y@[indices@[k] as int] as int);
            }
        }
        let t = build_tree(
            x,
            y,
            self.max_depth,
            self.min_samples_split,
            0,
            indices,
            rng,
            Ghost(seq_min(ints_of(y@))),
            Ghost(seq_max(ints_of(y@))),
        );
        self.root = Some(t);
        self.n_features = x.ncols();
        Ok(())
    }

    /// One prediction per row, by traversal. Fails exactly when no tree has
    /// been grown.
    pub fn predict(&self, x: &Matrix) -> (r: Result<Vec<i64>, MlError>)
        requires
            self.wf(),
            x.wf(),
            self.root is Some ==> x.cols_spec() == self.n_features,
        ensures
            self.root is None ==> r == Err::<Vec<i64>, MlError>(MlError::NotTrained),
            match self.root {
                Some(t) => match r {
                    Ok(p) => {
                        &&& p@.len() == x@.len()
                        &&& forall|i: int|
                            0 <= i < x@.len() ==> (#[trigger] p@[i]) as int == tree_pred(
                                t,
                                x@[i],
                            )
                    },
                    Err(_) => false,
                },
                None => true,
            },
    {
        let root = match &self.root {
            Some(t) => t,
            None => {
                return Err(MlError::NotTrained);
            },
        };
        let n = x.nrows();
        let mut out: Vec<i64> = Vec::new();
        let mut i: usize = 0;
        while i < n
            invariant
                0 <= i <= n,
                out@.len() == i,
                forall|k: int|
                    0 <= k < i ==> (#[trigger] out@[k]) as int == tree_pred(
                        self.root->Some_0,
                        x@[k],
                    ),
            decreases n - i,
        {
            let row = x.row(i);
            out.push(predict_single(root, row));
            i = i + 1;
        }
        Ok(out)
    }
}

/// Traverse one sample down the tree.
fn predict_single(t: &TreeNode, sample: &Vec<i64>) -> (r: i64)
    requires
        features_lt(*t, sample@.len() as int),
    ensures
        r as int == tree_pred(*t, ints_of(sample@)),
    decreases *t,
{
    match t {
        TreeNode::Leaf { value } => *value,
        TreeNode::Split { feature, threshold, left, right } => {
            if sample[*feature] < *threshold {
                predict_single(left, sample)
            } else {
                predict_single(right, sample)
            }
        },
    }
}

/// The targets selected by `indices`.
fn select(y: &Vec<i64>, indices: &Vec<usize>) -> (r: Vec<i64>)
    requires
        forall|k: int| 0 <= k < indices@.len() ==> (#[trigger] indices@[k]) < y@.len(),
    ensures
        r@.len() == indices@.len(),
        forall|k: int|
            0 <= k < indices@.len() ==> (#[trigger] r@[k]) == y@[indices@[k] as int],
{
    let mut r: Vec<i64> = Vec::new();
    let mut i: usize = 0;
    while i < indices.len()
        invariant
            0 <= i <= indices@.len(),
            r@.len() == i,
            forall|k: int| 0 <= k < i ==> (#[trigger] r@[k]) == y@[indices@[k] as int],
        decreases indices@.len() - i,
    {
        r.push(y[indices[i]]);
        i = i + 1;
    }
    r
}

/// Grow one subtree over `indices`. The leaf-value bounds `lo`, `hi` hold of
/// every selected target, and therefore of every leaf the subtree grows.
fn build_tree(
    x: &Matrix,
    y: &Vec<i64>,
    max_depth: usize,
    min_samples_split: usize,
    depth: usize,
    indices: Vec<usize>,
    rng: &mut RandomSource,
    Ghost(lo): Ghost<int>,
    Ghost(hi): Ghost<int>,
) -> (r: TreeNode)
    requires
        x.wf(),
        y@.len() == x@.len(),
        indices@.len() > 0,
        forall|k: int| 0 <= k < indices@.len() ==> (#[trigger] indices@[k]) < y@.len(),
        forall|k: int|
            0 <= k < indices@.len() ==> lo <= y@[#[trigger] indices@[k] as int] as int <= hi,
        depth <= max_depth,
    ensures
        values_in(r, lo, hi),
        features_lt(r, x.cols_spec()),
    decreases max_depth - depth,
{
    let f = x.ncols();
    if depth >= max_depth || indices.len() < min_samples_split {
        return leaf_of_mean(x, y, &indices, Ghost(lo), Ghost(hi));
    }

    // Search for the best (feature, random threshold) pair by summed
    // squared error of the two mean-predicted sides.
    let mut best: Option<(usize, i64)> = None;
    let mut best_score: i64 = i64::MAX;
    let mut feature: usize = 0;
    while feature < f
        invariant
            0 <= feature <= f,
            x.wf(),
            y@.len() == x@.len(),
            indices@.len() > 0,
            forall|k: int| 0 <= k < indices@.len() ==> (#[trigger] indices@[k]) < y@.len(),
            match best {
                Some((bf, bt)) => bf < f,
                None => true,
            },
        decreases f - feature,
    {
        // The observed range of this feature over the selected samples.
        let mut minv = x.at(indices[0], feature);
        let mut maxv = minv;
        let mut k: usize = 1;
        while k < indices.len()
            invariant
                1 <= k <= indices@.len(),
                x.wf(),
                feature < f,
                f == x.cols_spec(),
                forall|u: int| 0 <= u < indices@.len() ==> (#[trigger] indices@[u]) < x@.len(),
                minv <= maxv,
            decreases indices@.len() - k,
        {
            let v = x.at(indices[k], feature);
            if v < minv {
                minv = v;
            }
            if v > maxv {
                maxv = v;
            }
            k = k + 1;
        }
        if fx_sub(maxv, minv) != 0 {
            let mut t: usize = 0;
            while t < 10
                invariant
                    0 <= t <= 10,
                    x.wf(),
                    y@.len() == x@.len(),
                    feature < f,
                    f == x.cols_spec(),
                    minv <= maxv,
                    indices@.len() > 0,
                    forall|u: int|
                        0 <= u < indices@.len() ==> (#[trigger] indices@[u]) < y@.len(),
                    match best {
                        Some((bf, bt)) => bf < f,
                        None => true,
                    },
                decreases 10 - t,
            {
                let threshold = rng.between(minv, maxv);
                let (li, ri) = partition(x, &indices, feature, threshold);
                if li.len() > 0 && ri.len() > 0 {
                    let ly = select(y, &li);
                    let ry = select(y, &ri);
                    let lm = mean_of(&ly);
                    let rm = mean_of(&ry);
                    let score = fx_add(sse(&ly, lm), sse(&ry, rm));
                    if score < best_score {
                        best_score = score;
                        best = Some((feature, threshold));
                    }
                }
                t = t + 1;
            }
        }
        feature = feature + 1;
    }

    match best {
        None => leaf_of_mean(x, y, &indices, Ghost(lo), Ghost(hi)),
        Some((bf, bt)) => {
            let (li, ri) = partition(x, &indices, bf, bt);
            if li.len() == 0 || ri.len() == 0 {
                // The winning threshold no longer separates the samples; a
                // leaf is the degenerate answer.
                return leaf_of_mean(x, y, &indices, Ghost(lo), Ghost(hi));
            }
            let left = build_tree(
                x,
                y,
                max_depth,
                min_samples_split,
                depth + 1,
                li,
                rng,
                Ghost(lo),
                Ghost(hi),
            );
            let right = build_tree(
                x,
                y,
                max_depth,
                min_samples_split,
                depth + 1,
                ri,
                rng,
                Ghost(lo),
                Ghost(hi),
            );
            TreeNode::Split { feature: bf, threshold: bt, left: Box::new(left), right: Box::new(right) }
        },
    }
}

/// A leaf holding the mean target of the selected samples.
fn leaf_of_mean(
    x: &Matrix,
    y: &Vec<i64>,
    indices: &Vec<usize>,
    Ghost(lo): Ghost<int>,
    Ghost(hi): Ghost<int>,
) -> (r: TreeNode)
    requires
        indices@.len() > 0,
        forall|k: int| 0 <= k < indices@.len() ==> (#[trigger] indices@[k]) < y@.len(),
        forall|k: int|
            0 <= k < indices@.len() ==> lo <= y@[#[trigger] indices@[k] as int] as int <= hi,
    ensures
        values_in(r, lo, hi),
        forall|f: int| features_lt(r, f),
{
    let sel = select(y, indices);
    proof {
        lemma_mean_in_range(ints_of(sel@), lo, hi);
    }
    let m = mean_of(&sel);
    TreeNode::Leaf { value: m }
}

/// Split the selected samples on `x[idx][feature] < threshold`.
fn partition(x: &Matrix, indices: &Vec<usize>, feature: usize, threshold: i64) -> (r: (
    Vec<usize>,
    Vec<usize>,
))
    requires
        x.wf(),
        feature < x.cols_spec(),
        forall|k: int| 0 <= k < indices@.len() ==> (#[trigger] indices@[k]) < x@.len(),
    ensures
        r.0@.len() + r.1@.len() == indices@.len(),
        forall|k: int| 0 <= k < r.0@.len() ==> (#[trigger] r.0@[k]) < x@.len(),
        forall|k: int| 0 <= k < r.1@.len() ==> (#[trigger] r.1@[k]) < x@.len(),
        forall|k: int|
            0 <= k < r.0@.len() ==> indices@.contains(#[trigger] r.0@[k]),
        forall|k: int|
            0 <= k < r.1@.len() ==> indices@.contains(#[trigger] r.1@[k]),
{
    let mut left: Vec<usize> = Vec::new();
    let mut right: Vec<usize> = Vec::new();
    let mut i: usize = 0;
    while i < indices.len()
        invariant
            0 <= i <= indices@.len(),
            x.wf(),
            feature < x.cols_spec(),
            forall|k: int| 0 <= k < indices@.len() ==> (#[trigger] indices@[k]) < x@.len(),
            left@.len() + right@.len() == i,
            forall|k: int| 0 <= k < left@.len() ==> (#[trigger] left@[k]) < x@.len(),
            forall|k: int| 0 <= k < right@.len() ==> (#[trigger] right@[k]) < x@.len(),
            forall|k: int| 0 <= k < left@.len() ==> indices@.contains(#[trigger] left@[k]),
            forall|k: int|
                0 <= k < right@.len() ==> indices@.contains(#[trigger] right@[k]),
        decreases indices@.len() - i,
    {
        let idx = indices[i];
        if x.at(idx, feature) < threshold {
            left.push(idx);
        } else {
            right.push(idx);
        }
        i = i + 1;
    }
    (left, right)
}

/// Summed squared error of `v` against `m`, with saturating fixed-point
/// steps.
fn sse(v: &Vec<i64>, m: i64) -> (r: i64) {
    let mut acc: i64 = 0;
    let mut i: usize = 0;
    while i < v.len()
        invariant
            0 <= i <= v@.len(),
        decreases v@.len() - i,
    {
        let d = fx_sub(v[i], m);
        acc = fx_add(acc, fx_mul(d, d));
        i = i + 1;
    }
    acc
}

} // verus!
