//! A rectangular table of fixed-point numbers: rows are samples, columns are
//! features. Viewed in specifications as a `Seq<Seq<int>>`.

use vstd::prelude::*;

use crate::numeric::ints_of;

verus! {

pub struct Matrix {
    pub data: Vec<Vec<i64>>,
    pub cols: usize,
}

/// An element-wise copy of a vector.
pub fn copy_values(v: &Vec<i64>) -> (r: Vec<i64>)
    ensures
        r@ == v@,
{
    let mut r: Vec<i64> = Vec::new();
    let mut i: usize = 0;
    while i < v.len()
        invariant
            0 <= i <= v@.len(),
            r@ =~= v@.take(i as int),
        decreases v@.len() - i,
    {
        r.push(v[i]);
        i = i + 1;
    }
    proof {
        assert(v@.take(v@.len() as int) =~= v@);
    }
    r
}

impl View for Matrix {
    type V = Seq<Seq<int>>;

    open spec fn view(&self) -> Seq<Seq<int>> {
        self.data@.map_values(|r: Vec<i64>| ints_of(r@))
    }
}

impl Matrix {
    /// Every row has exactly `cols` entries.
    pub open spec fn wf(&self) -> bool {
        forall|i: int|
            0 <= i < self@.len() ==> (#[trigger] self@[i]).len() == self.cols_spec()
    }

    pub open spec fn cols_spec(&self) -> int {
        self.cols as int
    }

    pub fn new(cols: usize) -> (m: Matrix)
        ensures
            m.wf(),
            m@.len() == 0,
            m.cols_spec() == cols,
    {
        Matrix { data: Vec::new(), cols }
    }

    pub fn nrows(&self) -> (r: usize)
        ensures
            r == self@.len(),
    {
        self.data.len()
    }

    pub fn ncols(&self) -> (r: usize)
        ensures
            r == self.cols_spec(),
    {
        self.cols
    }

    pub fn at(&self, i: usize, j: usize) -> (v: i64)
        requires
            self.wf(),
            i < self@.len(),
            j < self.cols_spec(),
        ensures
            v as int == self@[i as int][j as int],
    {
        proof {
            assert(self@[i as int] == ints_of(self.data@[i as int]@));
        }
        self.data[i][j]
    }

    pub fn row(&self, i: usize) -> (r: &Vec<i64>)
        requires
            i < self@.len(),
        ensures
            ints_of(r@) == self@[i as int],
    {
        &self.data[i]
    }

    pub fn push_row(&mut self, row: Vec<i64>) -> (u: ())
        requires
            old(self).wf(),
            row@.len() == old(self).cols_spec(),
        ensures
            final(self).wf(),
            final(self).cols_spec() == old(self).cols_spec(),
            final(self)@ == old(self)@.push(ints_of(row@)),
    {
        let ghost r = ints_of(row@);
        self.data.push(row);
        proof {
            assert(self@ =~= old(self)@.push(r));
        }
    }

    /// Copy of column `j`.
    pub fn col(&self, j: usize) -> (r: Vec<i64>)
        requires
            self.wf(),
            j < self.cols_spec(),
        ensures
            r@.len() == self@.len(),
            forall|i: int| 0 <= i < self@.len() ==> r@[i] as int == #[trigger] self@[i][j as int],
    {
        let mut r: Vec<i64> = Vec::new();
        let mut i: usize = 0;
        while i < self.data.len()
            invariant
                0 <= i <= self@.len(),
                self.wf(),
                j < self.cols_spec(),
                r@.len() == i,
                forall|k: int| 0 <= k < i ==> r@[k] as int == #[trigger] self@[k][j as int],
            decreases self@.len() - i,
        {
            proof {
                assert(self@[i as int] == ints_of(self.data@[i as int]@));
            }
            r.push(self.data[i][j]);
            i = i + 1;
        }
        r
    }

    /// Copy of the rows `[lo, hi)`.
    pub fn slice_rows(&self, lo: usize, hi: usize) -> (m: Matrix)
        requires
            self.wf(),
            lo <= hi <= self@.len(),
        ensures
            m.wf(),
            m.cols_spec() == self.cols_spec(),
            m@ == self@.subrange(lo as int, hi as int),
    {
        let mut m = Matrix::new(self.cols);
        let mut i: usize = lo;
        while i < hi
            invariant
                lo <= i <= hi <= self@.len(),
                self.wf(),
                m.wf(),
                m.cols_spec() == self.cols_spec(),
                m@ =~= self@.subrange(lo as int, i as int),
            decreases hi - i,
        {
            let row = copy_values(&self.data[i]);
            proof {
                assert(ints_of(row@) == self@[i as int]);
            }
            m.push_row(row);
            proof {
                assert(m@ =~= self@.subrange(lo as int, (i + 1) as int));
            }
            i = i + 1;
        }
        m
    }
}

} // verus!
