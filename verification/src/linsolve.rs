//! Dense linear solves by Gaussian elimination with partial pivoting.
//!
//! The specification functions in this module are a ghost model of the
//! elimination over the scalar hooks; `solve_linear` is proved to return
//! exactly what the model says: `None` precisely when some pivot column has
//! no entry of absolute value above zero, and otherwise the back-substituted
//! solution of the reduced system.

use vstd::prelude::*;

use crate::matrix::Matrix;
use crate::scalar::Scalar;
use crate::vector::Vector;

verus! {

/// The views of a list of vectors, as the rows of a matrix of scalars.
pub open spec fn views_of<T>(w: Seq<Vector<T>>) -> Seq<Seq<T>> {
    Seq::new(w.len(), |i: int| w[i]@)
}

/// The all-zero sequence of length `n`.
pub open spec fn zero_seq<T: Scalar>(n: nat) -> Seq<T> {
    Seq::new(n, |i: int| T::spec_zero())
}

/// The pivot row the scan picks for column `k` among rows `k..upto`: the
/// earliest row of largest absolute entry in that column, a later row
/// replacing the candidate only on a strict increase.
pub open spec fn pivot_choice<T: Scalar>(m: Seq<Seq<T>>, k: int, upto: int) -> int
    decreases upto - k,
{
    if upto <= k + 1 {
        k
    } else {
        let prev = pivot_choice(m, k, upto - 1);
        if m[prev][k].spec_abs().spec_lt(m[upto - 1][k].spec_abs()) {
            upto - 1
        } else {
            prev
        }
    }
}

/// A row after elimination: the row minus `factor` times the pivot row.
pub open spec fn reduced_row<T: Scalar>(row: Seq<T>, pivot_row: Seq<T>, factor: T) -> Seq<T> {
    Seq::new(row.len(), |j: int| row[j].spec_sub(pivot_row[j].spec_mul(factor)))
}

/// The rows after the elimination step for column `k`, the pivot swap
/// already done: rows up to `k` stay, every later row loses its column-`k`
/// entry against the pivot row.
pub open spec fn after_step_rows<T: Scalar>(m: Seq<Seq<T>>, k: int) -> Seq<Seq<T>> {
    Seq::new(
        m.len(),
        |i: int|
            if i <= k {
                m[i]
            } else {
                reduced_row(m[i], m[k], m[i][k].spec_div(m[k][k]))
            },
    )
}

/// The right-hand side after the elimination step for column `k`.
pub open spec fn after_step_rhs<T: Scalar>(m: Seq<Seq<T>>, rhs: Seq<T>, k: int) -> Seq<T> {
    Seq::new(
        rhs.len(),
        |i: int|
            if i <= k {
                rhs[i]
            } else {
                rhs[i].spec_sub(m[i][k].spec_div(m[k][k]).spec_mul(rhs[k]))
            },
    )
}

/// Forward elimination from column `k` on: `None` as soon as a pivot column
/// has no entry of absolute value above zero, else the reduced system.
pub open spec fn eliminate<T: Scalar>(m: Seq<Seq<T>>, rhs: Seq<T>, k: int) -> Option<
    (Seq<Seq<T>>, Seq<T>),
>
    decreases m.len() - k,
    when 0 <= k
    via eliminate_decreases::<T>
{
    if k >= m.len() {
        Some((m, rhs))
    } else {
        let piv = pivot_choice(m, k, m.len() as int);
        if !T::spec_zero().spec_lt(m[piv][k].spec_abs()) {
            None
        } else {
            let ms = m.update(k, m[piv]).update(piv, m[k]);
            let rs = rhs.update(k, rhs[piv]).update(piv, rhs[k]);
            eliminate(
                Seq::new(
                    ms.len(),
                    |i: int|
                        if i <= k {
                            ms[i]
                        } else {
                            reduced_row(ms[i], ms[k], ms[i][k].spec_div(ms[k][k]))
                        },
                ),
                Seq::new(
                    rs.len(),
                    |i: int|
                        if i <= k {
                            rs[i]
                        } else {
                            rs[i].spec_sub(ms[i][k].spec_div(ms[k][k]).spec_mul(rs[k]))
                        },
                ),
                k + 1,
            )
        }
    }
}

/// The pivot the scan picks lies among the rows it scanned.
proof fn lemma_pivot_choice_in_range<T: Scalar>(m: Seq<Seq<T>>, k: int, upto: int)
    requires
        k < upto,
    ensures
        k <= pivot_choice(m, k, upto) < upto,
    decreases upto - k,
{
    if upto > k + 1 {
        lemma_pivot_choice_in_range(m, k, upto - 1);
    }
}

#[via_fn]
proof fn eliminate_decreases<T: Scalar>(m: Seq<Seq<T>>, rhs: Seq<T>, k: int) {
    broadcast use vstd::seq::group_seq_axioms;

    if 0 <= k < m.len() {
        lemma_pivot_choice_in_range::<T>(m, k, m.len() as int);
        let piv = pivot_choice(m, k, m.len() as int);
        if T::spec_zero().spec_lt(m[piv][k].spec_abs()) {
            let ms = m.update(k, m[piv]).update(piv, m[k]);
            assert(ms.len() == m.len());
        }
    }
}

/// The left fold the executable back substitution computes for row `k`:
/// the right-hand side entry minus the entries beyond `k` times the already
/// known solution parts, walked from column `k + 1` up to `j`.
pub open spec fn back_acc<T: Scalar>(init: T, row: Seq<T>, x: Seq<T>, k: int, j: int) -> T
    decreases j - k,
{
    if j <= k + 1 {
        init
    } else {
        back_acc(init, row, x, k, j - 1).spec_sub(row[j - 1].spec_mul(x[j - 1]))
    }
}

/// Back substitution on the reduced system, filling `x` from row `k - 1`
/// downward.
pub open spec fn back_substitute<T: Scalar>(m: Seq<Seq<T>>, rhs: Seq<T>, x: Seq<T>, k: int) -> Seq<
    T,
>
    decreases k,
{
    if k <= 0 {
        x
    } else {
        let i = k - 1;
        let val = back_acc(rhs[i], m[i], x, i, m.len() as int).spec_div(m[i][i]);
        back_substitute(m, rhs, x.update(i, val), i)
    }
}

/// What the solver returns: the back-substituted solution of the eliminated
/// system, or `None` when elimination fails.
pub open spec fn solve_spec<T: Scalar>(m: Seq<Seq<T>>, rhs: Seq<T>) -> Option<Seq<T>> {
    match eliminate(m, rhs, 0) {
        Some(st) => Some(
            back_substitute(st.0, st.1, zero_seq(rhs.len()), rhs.len() as int),
        ),
        None => None,
    }
}

/// Solves the square system `a * x = b`.
///
/// Returns exactly what [`solve_spec`] says of `a`'s rows and `b`: `None`
/// when elimination meets a column whose remaining entries all have absolute
/// value not above zero — the factorization has failed and the matrix is
/// treated as singular, as a dense LU solver would — and otherwise the
/// back-substituted solution.
pub fn solve_linear<T: Scalar>(a: &Matrix<T>, b: &Vector<T>) -> (r: Option<Vector<T>>)
    requires
        a.wf(),
        a.row_count() == a.col_count(),
        b@.len() == a.row_count(),
    ensures
        r matches Some(x) ==> solve_spec(a.rows_view(), b@) == Some(x@) && x@.len() == b@.len(),
        r is None ==> solve_spec(a.rows_view(), b@) is None,
{
    let n = a.nrows();
    let ghost m0 = a.rows_view();
    let ghost r0 = b@;

    // Working copies: the matrix rows and the right-hand side.
    let mut work: Vec<Vector<T>> = Vec::new();
    for i in 0..n
        invariant
            a.wf(),
            n == a.row_count(),
            n == a.col_count(),
            work@.len() == i,
            forall|t: int| 0 <= t < i ==> (#[trigger] work@[t])@ == a.row_seq(t),
            forall|t: int| 0 <= t < i ==> (#[trigger] work@[t])@.len() == n,
    {
        work.push(a.row(i));
    }
    let mut rhs: Vec<T> = Vec::new();
    for i in 0..n
        invariant
            n == b@.len(),
            rhs@.len() == i,
            forall|t: int| 0 <= t < i ==> rhs@[t] == b@[t],
    {
        rhs.push(b.get(i));
    }
    proof {
        assert(views_of(work@) =~= m0);
        assert(rhs@ =~= r0);
    }

    // Forward elimination with partial pivoting.
    for k in 0..n
        invariant
            n == b@.len(),
            m0 == a.rows_view(),
            r0 == b@,
            work@.len() == n,
            rhs@.len() == n,
            forall|t: int| 0 <= t < n ==> (#[trigger] work@[t])@.len() == n,
            eliminate(m0, r0, 0) == eliminate(views_of(work@), rhs@, k as int),
    {
        let ghost vw = views_of(work@);
        let ghost vr = rhs@;

        // Pick the remaining row with the largest entry in column k.
        let mut piv: usize = k;
        let mut best = work[k].get(k).abs();
        for i in (k + 1)..n
            invariant
                work@.len() == n,
                forall|t: int| 0 <= t < n ==> (#[trigger] work@[t])@.len() == n,
                k < n,
                k <= piv < n,
                vw == views_of(work@),
                piv == pivot_choice(vw, k as int, i as int),
                best == vw[piv as int][k as int].spec_abs(),
        {
            let cand = work[i].get(k).abs();
            if best.lt(cand) {
                piv = i;
                best = cand;
            }
        }
        if !T::zero().lt(best) {
            proof {
                assert(eliminate(vw, vr, k as int) is None);
            }
            return None;
        }

        // Swap the pivot row into place.
        let ghost ms = vw.update(k as int, vw[piv as int]).update(piv as int, vw[k as int]);
        let ghost rs = vr.update(k as int, vr[piv as int]).update(piv as int, vr[k as int]);
        if piv != k {
            let row_k = work[k].duplicate();
            let row_piv = work[piv].duplicate();
            work[k] = row_piv;
            work[piv] = row_k;
            let tmp: T = rhs[k];
            rhs[k] = rhs[piv];
            rhs[piv] = tmp;
        }
        proof {
            assert(views_of(work@) =~= ms);
            assert(rhs@ =~= rs);
        }

        // Eliminate column k from the rows below.
        for i in (k + 1)..n
            invariant
                work@.len() == n,
                rhs@.len() == n,
                forall|t: int| 0 <= t < n ==> (#[trigger] work@[t])@.len() == n,
                k < n,
                ms.len() == n,
                rs.len() == n,
                forall|t: int|
                    0 <= t < n && (t <= k || i <= t) ==> (#[trigger] work@[t])@ == ms[t],
                forall|t: int| 0 <= t < n && (t <= k || i <= t) ==> rhs@[t] == rs[t],
                forall|t: int|
                    k < t < i ==> (#[trigger] work@[t])@ == reduced_row(
                        ms[t],
                        ms[k as int],
                        ms[t][k as int].spec_div(ms[k as int][k as int]),
                    ),
                forall|t: int|
                    k < t < i ==> rhs@[t] == rs[t].spec_sub(
                        ms[t][k as int].spec_div(ms[k as int][k as int]).spec_mul(rs[k as int]),
                    ),
        {
            let factor = work[i].get(k).div(work[k].get(k));
            let reduced = work[i].sub(&work[k].scale(factor));
            proof {
                assert(reduced@ =~= reduced_row(
                    ms[i as int],
                    ms[k as int],
                    ms[i as int][k as int].spec_div(ms[k as int][k as int]),
                ));
            }
            work[i] = reduced;
            rhs[i] = rhs[i].sub(factor.mul(rhs[k]));
        }
        proof {
            assert(views_of(work@) =~= after_step_rows(ms, k as int));
            assert(rhs@ =~= after_step_rhs(ms, rs, k as int));
            assert(eliminate(vw, vr, k as int) == eliminate(views_of(work@), rhs@, k + 1));
        }
    }

    // Back substitution.
    let ghost fm = views_of(work@);
    let ghost fr = rhs@;
    proof {
        assert(eliminate(m0, r0, 0) == Some((fm, fr)));
    }
    let mut x: Vec<T> = Vec::new();
    for i in 0..n
        invariant
            x@.len() == i,
            forall|t: int| 0 <= t < i ==> x@[t] == T::spec_zero(),
    {
        x.push(T::zero());
    }
    proof {
        assert(x@ =~= zero_seq::<T>(n as nat));
    }
    let ghost target = back_substitute(fm, fr, zero_seq(n as nat), n as int);
    let mut k = n;
    while k > 0
        invariant
            k <= n,
            work@.len() == n,
            rhs@.len() == n,
            forall|t: int| 0 <= t < n ==> (#[trigger] work@[t])@.len() == n,
            views_of(work@) == fm,
            rhs@ == fr,
            fm.len() == n,
            x@.len() == n,
            target == back_substitute(fm, fr, x@, k as int),
        decreases k,
    {
        k = k - 1;
        let mut acc = rhs[k];
        for j in (k + 1)..n
            invariant
                work@.len() == n,
                rhs@.len() == n,
                forall|t: int| 0 <= t < n ==> (#[trigger] work@[t])@.len() == n,
                views_of(work@) == fm,
                x@.len() == n,
                k < n,
                acc == back_acc(fr[k as int], fm[k as int], x@, k as int, j as int),
        {
            acc = acc.sub(work[k].get(j).mul(x[j]));
        }
        let ghost x_before = x@;
        x[k] = acc.div(work[k].get(k));
        proof {
            assert(back_substitute(fm, fr, x_before, k + 1) == back_substitute(
                fm,
                fr,
                x@,
                k as int,
            ));
        }
    }
    proof {
        assert(solve_spec(m0, r0) == Some(x@));
    }
    Some(Vector::from_elems(x))
}

} // verus!
