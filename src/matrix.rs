//! Fixed-size matrices stored as rows of lane vectors.
use vstd::prelude::*;
use crate::arith::{lane_add, lane_mul, lemma_wrap_add, lemma_wrap_small, wrap};
use crate::vector::{lanes_add, lanes_zero, Vector};

verus! {

broadcast use vstd::array::group_array_axioms;

/// `a[0]*b[0] + ... + a[n-1]*b[n-1]`, exactly.
pub open spec fn dot(a: Seq<i32>, b: Seq<i32>, n: int) -> int
    decreases n,
{
    if n <= 0 {
        0
    } else {
        dot(a, b, n - 1) + a[n - 1] * b[n - 1]
    }
}

/// `w[0][i]*e[0] + ... + w[n-1][i]*e[n-1]`, exactly: lane `i` of the
/// transposed product.
pub open spec fn col_dot(w: Seq<Seq<i32>>, e: Seq<i32>, i: int, n: int) -> int
    decreases n,
{
    if n <= 0 {
        0
    } else {
        col_dot(w, e, i, n - 1) + w[n - 1][i] * e[n - 1]
    }
}

/// The wrapped product of the rows with `x`: one lane per row.
pub open spec fn rows_mul(w: Seq<Seq<i32>>, x: Seq<i32>) -> Seq<i32> {
    Seq::new(w.len(), |j: int| wrap(dot(w[j], x, x.len() as int)))
}

/// The wrapped transposed product: lane `i` sums lane `i` of every row,
/// scaled by the matching lane of `e`.
pub open spec fn rows_transpose_mul(w: Seq<Seq<i32>>, e: Seq<i32>, width: nat) -> Seq<i32> {
    Seq::new(width, |i: int| wrap(col_dot(w, e, i, w.len() as int)))
}

/// Row-wise lane sums.
pub open spec fn rows_add(a: Seq<Seq<i32>>, b: Seq<Seq<i32>>) -> Seq<Seq<i32>> {
    Seq::new(a.len(), |j: int| lanes_add(a[j], b[j]))
}

/// The first `r` rows, one after another.
pub open spec fn concat_rows(w: Seq<Seq<i32>>, r: int) -> Seq<i32>
    decreases r,
{
    if r <= 0 {
        Seq::empty()
    } else {
        concat_rows(w, r - 1) + w[r - 1]
    }
}

/// All rows have `c` lanes.
pub open spec fn uniform(w: Seq<Seq<i32>>, c: nat) -> bool {
    forall|j: int| 0 <= j < w.len() ==> #[trigger] w[j].len() == c
}

pub proof fn lemma_concat_len(w: Seq<Seq<i32>>, r: int, c: nat)
    requires
        uniform(w, c),
        0 <= r <= w.len(),
    ensures
        concat_rows(w, r).len() == r * c,
    decreases r,
{
    if r > 0 {
        lemma_concat_len(w, r - 1, c);
        assert(w[r - 1].len() == c);
        assert((r - 1) * c + c == r * c) by (nonlinear_arith);
    } else {
        assert(r * c == 0) by (nonlinear_arith)
            requires
                r == 0,
        ;
    }
}

/// Rows that agree on a prefix concatenate alike over it.
pub proof fn lemma_concat_prefix(a: Seq<Seq<i32>>, b: Seq<Seq<i32>>, r: int)
    requires
        forall|j: int| 0 <= j < r ==> a[j] == b[j],
    ensures
        concat_rows(a, r) == concat_rows(b, r),
    decreases r,
{
    if r > 0 {
        lemma_concat_prefix(a, b, r - 1);
    }
}

/// Rows of one width are determined by their concatenation.
pub proof fn lemma_concat_injective(a: Seq<Seq<i32>>, b: Seq<Seq<i32>>, r: int, c: nat)
    requires
        uniform(a, c),
        uniform(b, c),
        0 <= r <= a.len(),
        r <= b.len(),
        concat_rows(a, r) == concat_rows(b, r),
    ensures
        forall|j: int| 0 <= j < r ==> a[j] == b[j],
    decreases r,
{
    if r > 0 {
        lemma_concat_len(a, r - 1, c);
        lemma_concat_len(b, r - 1, c);
        let pa = concat_rows(a, r - 1);
        let pb = concat_rows(b, r - 1);
        assert((pa + a[r - 1]).subrange(0, pa.len() as int) =~= pa);
        assert((pb + b[r - 1]).subrange(0, pb.len() as int) =~= pb);
        assert((pa + a[r - 1]).subrange(pa.len() as int, (pa.len() + c) as int) =~= a[r - 1]);
        assert((pb + b[r - 1]).subrange(pb.len() as int, (pb.len() + c) as int) =~= b[r - 1]);
        lemma_concat_injective(a, b, r - 1, c);
    }
}

/// `R` rows of `C` lanes each.
#[derive(Clone, Copy)]
pub struct Matrix<const R: usize, const C: usize> {
    pub rows: [Vector<C>; R],
}

impl<const R: usize, const C: usize> View for Matrix<R, C> {
    type V = Seq<Seq<i32>>;

    open spec fn view(&self) -> Seq<Seq<i32>> {
        Seq::new(R as nat, |j: int| self.rows@[j]@)
    }
}

impl<const R: usize, const C: usize> Matrix<R, C> {
    /// `R` rows, each of `C` lanes.
    pub proof fn lemma_shape(&self)
        ensures
            self@.len() == R,
            forall|j: int| 0 <= j < R ==> #[trigger] self@[j].len() == C,
    {
        assert forall|j: int| 0 <= j < R implies #[trigger] self@[j].len() == C by {
            assert(self@[j] == self.rows@[j]@);
        }
    }

    pub fn from_raw(rows: [Vector<C>; R]) -> (r: Self)
        ensures
            r@ == Seq::new(R as nat, |j: int| rows@[j]@),
    {
        Matrix { rows }
    }

    /// Lane `i` of row `j` is `f(j, i)`.
    pub fn from_fn<F: Fn(usize, usize) -> i32>(f: F) -> (r: Self)
        requires
            forall|j: usize, i: usize| j < R && i < C ==> f.requires((j, i)),
        ensures
            forall|j: usize, i: usize|
                j < R && i < C ==> f.ensures((j, i), #[trigger] r@[j as int][i as int]),
    {
        let mut r = Self::zeroed();
        let mut j: usize = 0;
        while j < R
            invariant
                j <= R,
                r@.len() == R,
                forall|j: usize, i: usize| j < R && i < C ==> f.requires((j, i)),
                forall|k: usize, i: usize|
                    k < j && i < C ==> f.ensures((k, i), #[trigger] r@[k as int][i as int]),
            decreases R - j,
        {
            let mut row = Vector::<C>::zeroed();
            let mut i: usize = 0;
            while i < C
                invariant
                    i <= C,
                    j < R,
                    row@.len() == C,
                    forall|j: usize, i: usize| j < R && i < C ==> f.requires((j, i)),
                    forall|k: usize| k < i ==> f.ensures((j, k), #[trigger] row@[k as int]),
                decreases C - i,
            {
                let v = f(j, i);
                row.lanes[i] = v;
                i += 1;
            }
            let ghost prev = r@;
            r.rows[j] = row;
            assert(r@ =~= prev.update(j as int, row@));
            j += 1;
        }
        r
    }

    pub fn zeroed() -> (r: Self)
        ensures
            r@ == Seq::new(R as nat, |j: int| lanes_zero(C as nat)),
    {
        let z = Vector::<C>::zeroed();
        let rows: [Vector<C>; R] = vstd::array::array_fill_for_copy_types(z);
        let r = Matrix { rows };
        assert(r@ =~= Seq::new(R as nat, |j: int| lanes_zero(C as nat)));
        r
    }

    pub fn row(&self, j: usize) -> (r: Vector<C>)
        requires
            j < R,
        ensures
            r@ == self@[j as int],
    {
        self.rows[j]
    }

    pub fn set_row(&mut self, j: usize, v: Vector<C>)
        requires
            j < R,
        ensures
            final(self)@ == old(self)@.update(j as int, v@),
    {
        self.rows[j] = v;
        assert(self@ =~= old(self)@.update(j as int, v@));
    }

    /// The rows, one after another.
    pub open spec fn spec_lanes(&self) -> Seq<i32> {
        concat_rows(self@, R as int)
    }

    /// Appends the rows, one after another, to `out`.
    pub fn write_lanes(&self, out: &mut Vec<i32>)
        ensures
            final(out)@ == old(out)@ + self.spec_lanes(),
    {
        let ghost start = out@;
        let mut j: usize = 0;
        while j < R
            invariant
                j <= R,
                self@.len() == R,
                out@ == start + concat_rows(self@, j as int),
            decreases R - j,
        {
            self.rows[j].write_lanes(out);
            j += 1;
            assert(out@ =~= start + concat_rows(self@, j as int));
        }
    }

    /// Overwrites every row with the lanes of `src` from `pos` on.
    pub fn read_lanes(&mut self, src: &Vec<i32>, pos: usize) -> (next: usize)
        requires
            pos + R * C <= src@.len(),
        ensures
            final(self).spec_lanes() == src@.subrange(pos as int, pos + R * C),
            next == pos + R * C,
    {
        let len = src.len();
        let mut cur = pos;
        let mut j: usize = 0;
        while j < R
            invariant
                j <= R,
                len == src@.len(),
                pos + R * C <= src@.len(),
                cur == pos + j * C,
                self@.len() == R,
                concat_rows(self@, j as int) == src@.subrange(pos as int, cur as int),
            decreases R - j,
        {
            assert(j * C + C <= R * C) by (nonlinear_arith)
                requires
                    j < R,
            ;
            assert((j + 1) * C == j * C + C) by (nonlinear_arith);
            let ghost before = self@;
            cur = self.rows[j].read_lanes(src, cur);
            proof {
                assert(self@ =~= before.update(j as int, self@[j as int]));
                lemma_concat_prefix(self@, before, j as int);
                assert(concat_rows(self@, j + 1) =~= src@.subrange(pos as int, cur as int));
            }
            j += 1;
        }
        cur
    }

    /// One lane per row: the row's product with `x`.
    pub fn mul(&self, x: &Vector<C>) -> (r: Vector<R>)
        ensures
            r@ == rows_mul(self@, x@),
    {
        let mut r = Vector::<R>::zeroed();
        let mut j: usize = 0;
        while j < R
            invariant
                j <= R,
                r@.len() == R,
                x@.len() == C,
                self@.len() == R,
                forall|k: int| 0 <= k < j ==> r@[k] == wrap(dot(self@[k], x@, C as int)),
            decreases R - j,
        {
            let row = &self.rows[j];
            let mut acc: i32 = 0;
            let mut i: usize = 0;
            proof {
                lemma_wrap_small(0);
            }
            while i < C
                invariant
                    i <= C,
                    j < R,
                    row@ == self@[j as int],
                    row@.len() == C,
                    x@.len() == C,
                    acc == wrap(dot(row@, x@, i as int)),
                decreases C - i,
            {
                let p = lane_mul(row.lanes[i], x.lanes[i]);
                proof {
                    let d = dot(row@, x@, i as int);
                    lemma_wrap_add(d, row@[i as int] * x@[i as int]);
                    lemma_wrap_add(wrap(d) as int, row@[i as int] * x@[i as int]);
                }
                acc = lane_add(acc, p);
                i += 1;
            }
            r.set(j, acc);
            j += 1;
        }
        assert(r@ =~= rows_mul(self@, x@));
        r
    }

    /// Lane `i` of the result sums lane `i` of every row `j`, scaled by `e[j]`.
    pub fn transpose_mul(&self, e: &Vector<R>) -> (r: Vector<C>)
        ensures
            r@ == rows_transpose_mul(self@, e@, C as nat),
    {
        let mut r = Vector::<C>::zeroed();
        let mut i: usize = 0;
        while i < C
            invariant
                i <= C,
                r@.len() == C,
                e@.len() == R,
                self@.len() == R,
                forall|k: int| 0 <= k < i ==> r@[k] == wrap(col_dot(self@, e@, k, R as int)),
            decreases C - i,
        {
            let mut acc: i32 = 0;
            let mut j: usize = 0;
            proof {
                lemma_wrap_small(0);
            }
            while j < R
                invariant
                    j <= R,
                    i < C,
                    e@.len() == R,
                    self@.len() == R,
                    acc == wrap(col_dot(self@, e@, i as int, j as int)),
                decreases R - j,
            {
                let w = self.rows[j].lanes[i];
                assert(w == self@[j as int][i as int]);
                let p = lane_mul(w, e.lanes[j]);
                proof {
                    let d = col_dot(self@, e@, i as int, j as int);
                    lemma_wrap_add(d, w * e@[j as int]);
                    lemma_wrap_add(wrap(d) as int, w * e@[j as int]);
                }
                acc = lane_add(acc, p);
                j += 1;
            }
            r.set(i, acc);
            i += 1;
        }
        assert(r@ =~= rows_transpose_mul(self@, e@, C as nat));
        r
    }

    /// `self += rhs`, row by row.
    pub fn add_assign(&mut self, rhs: &Self)
        ensures
            final(self)@ == rows_add(old(self)@, rhs@),
    {
        let ghost start = self@;
        let mut j: usize = 0;
        while j < R
            invariant
                j <= R,
                start.len() == R,
                self@.len() == R,
                rhs@.len() == R,
                forall|k: int| 0 <= k < j ==> self@[k] == lanes_add(start[k], rhs@[k]),
                forall|k: int| j <= k < R ==> self@[k] == start[k],
            decreases R - j,
        {
            let v = self.rows[j].add(&rhs.rows[j]);
            let ghost prev = self@;
            self.rows[j] = v;
            assert(self@ =~= prev.update(j as int, v@));
            j += 1;
        }
        assert(self@ =~= rows_add(start, rhs@));
    }
}

} // verus!
