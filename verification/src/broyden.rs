//! Broyden's quasi-Newton method for square nonlinear systems.

use vstd::prelude::*;

use crate::linsolve::solve_linear;
use crate::linsolve::solve_spec;
use crate::vector::dot_spec;
use crate::matrix::Matrix;
use crate::scalar::Scalar;
use crate::vector::norm_spec;
use crate::vector::Vector;

verus! {

/// A residual function `r(x)` whose root is sought.
///
/// `eval` returns `None` where the residual is undefined — for instance when
/// an inner linear solve is singular or a collaborator hands back a vector of
/// the wrong dimension. The solver stops as soon as that happens.
pub trait Residual<T: Scalar> {
    /// The value `eval` returns, as the implementation's own model.
    open spec fn spec_eval(&self, x: Seq<T>) -> Option<Seq<T>> {
        arbitrary()
    }

    fn eval(&self, x: &Vector<T>) -> (r: Option<Vector<T>>)
        ensures
            r matches Some(v) ==> v@.len() == x@.len(),
            r matches Some(v) ==> self.spec_eval(x@) == Some(v@),
            r is None ==> self.spec_eval(x@) is None,
    ;
}

/// The rows of the identity matrix of order `n`, over the hooks.
pub open spec fn identity_rows<T: Scalar>(n: nat) -> Seq<Seq<T>> {
    Seq::new(
        n,
        |i: int|
            Seq::new(
                n,
                |j: int|
                    if i == j {
                        T::spec_one()
                    } else {
                        T::spec_zero()
                    },
            ),
    )
}

/// The whole solver run as a recurrence: from the iterate `x`, the Jacobian
/// approximation rows `b` and the norm of the last evaluated residual,
/// after `k` of `max_iter` iterations, the final iterate, status, completed
/// iteration count and last residual norm.
pub open spec fn broyden_model<T: Scalar>(
    residual: spec_fn(Seq<T>) -> Option<Seq<T>>,
    tol: T,
    update_guard: T,
    x: Seq<T>,
    b: Seq<Seq<T>>,
    last: Option<T>,
    k: nat,
    max_iter: nat,
) -> (Seq<T>, SolveStatus, nat, Option<T>)
    decreases max_iter - k,
{
    if k >= max_iter {
        (x, SolveStatus::IterationLimit, max_iter, last)
    } else {
        match residual(x) {
            Option::None => (x, SolveStatus::ResidualUndefined, k, last),
            Option::Some(fx) => {
                let nrm = norm_spec(fx);
                if nrm.spec_lt(tol) {
                    (x, SolveStatus::Converged, k, Some(nrm))
                } else {
                    match solve_spec(b, fx) {
                        Option::None => (x, SolveStatus::SingularJacobian, k, Some(nrm)),
                        Option::Some(upd) => {
                            let x_new = Seq::new(x.len(), |i: int| x[i].spec_sub(upd[i]));
                            let st = Seq::new(x_new.len(), |i: int| x_new[i].spec_sub(x[i]));
                            match residual(x_new) {
                                Option::None => (
                                    x,
                                    SolveStatus::ResidualUndefined,
                                    k,
                                    Some(nrm),
                                ),
                                Option::Some(fx_new) => {
                                    let yv = Seq::new(
                                        fx_new.len(),
                                        |i: int| fx_new[i].spec_sub(fx[i]),
                                    );
                                    let bs = Seq::new(b.len(), |i: int| dot_spec(b[i], st));
                                    let denom = dot_spec(st, st);
                                    let b2 = if update_guard.spec_lt(denom) {
                                        Seq::new(
                                            b.len(),
                                            |i: int|
                                                Seq::new(
                                                    b[i].len(),
                                                    |j: int|
                                                        b[i][j].spec_add(
                                                            st[j].spec_mul(
                                                                yv[i].spec_sub(bs[i]),
                                                            ).spec_div(denom),
                                                        ),
                                                ),
                                        )
                                    } else {
                                        b
                                    };
                                    broyden_model(
                                        residual,
                                        tol,
                                        update_guard,
                                        x_new,
                                        b2,
                                        Some(nrm),
                                        k + 1,
                                        max_iter,
                                    )
                                },
                            }
                        },
                    }
                }
            },
        }
    }
}

/// How a solver run ended.
#[derive(Clone, Copy, PartialEq, Eq, Debug)]
pub enum SolveStatus {
    /// The residual norm fell below the tolerance.
    Converged,
    /// The iteration budget ran out before the tolerance was met.
    IterationLimit,
    /// The Jacobian approximation became singular.
    SingularJacobian,
    /// The residual could not be evaluated.
    ResidualUndefined,
}

/// The result of a solver run: the last iterate together with an explicit
/// convergence signal, so the caller can decide what a non-converged iterate
/// is worth.
pub struct SolveOutcome<T> {
    /// The last iterate.
    pub x: Vector<T>,
    pub status: SolveStatus,
    /// How many solver loop iterations completed before the run ended; an
    /// iteration counts whether or not its secant update was skipped by the
    /// step-length guard.
    pub iterations: usize,
    /// The norm of the residual at the last iterate whose residual was
    /// evaluated; `None` only when no evaluation happened at all.
    pub residual_norm: Option<T>,
}

/// Seeks a root of `residual` starting from `x0`.
///
/// The Jacobian approximation starts as the identity and is improved by
/// rank-one secant corrections; a correction is skipped when the squared
/// step length is not above `update_guard`. The iterate is never accepted or
/// rejected on numerical grounds beyond the tolerance test: the caller reads
/// the outcome's status. The whole outcome is exactly what the recurrence
/// [`broyden_model`] computes from the seed.
pub fn broyden<T: Scalar, R: Residual<T>>(
    residual: &R,
    x0: &Vector<T>,
    max_iter: usize,
    tol: T,
    update_guard: T,
) -> (out: SolveOutcome<T>)
    ensures
        out.x@.len() == x0@.len(),
        out.iterations <= max_iter,
        out.iterations == 0 ==> out.x@ == x0@,
        out.status is IterationLimit ==> out.iterations == max_iter,
        out.status is Converged ==> out.residual_norm is Some,
        out.residual_norm is None ==> out.iterations == 0,
        max_iter == 0 ==> out.status is IterationLimit,
        out.status is Converged ==> (residual.spec_eval(out.x@) matches Some(fx)
            && out.residual_norm == Some(norm_spec(fx)) && norm_spec(fx).spec_lt(tol)),
        (out.status is ResidualUndefined && out.residual_norm is None) ==> residual.spec_eval(
            x0@,
        ) is None,
        (out.x@, out.status, out.iterations as nat, out.residual_norm) == broyden_model(
            (|xs: Seq<T>| residual.spec_eval(xs)),
            tol,
            update_guard,
            x0@,
            identity_rows(x0@.len()),
            Option::<T>::None,
            0,
            max_iter as nat,
        ),
{
    let mut x = x0.duplicate();
    let mut b = Matrix::identity(x0.dim());
    proof {
        assert forall|i: int| 0 <= i < x0@.len() implies b.rows_view()[i] =~= identity_rows::<
            T,
        >(x0@.len())[i] by {
            assert forall|j: int| 0 <= j < x0@.len() implies b.row_seq(i)[j] == identity_rows::<
                T,
            >(x0@.len())[i][j] by {
                assert(b.entry(i, j) == if i == j {
                    T::spec_one()
                } else {
                    T::spec_zero()
                });
            }
            assert(b.row_seq(i).len() == x0@.len());
        }
        assert(b.rows_view() =~= identity_rows::<T>(x0@.len()));
    }
    let mut last_norm: Option<T> = None;
    let mut k: usize = 0;
    while k < max_iter
        invariant
            x@.len() == x0@.len(),
            b.wf(),
            b.row_count() == x0@.len(),
            b.col_count() == x0@.len(),
            k <= max_iter,
            k == 0 ==> x@ == x0@,
            k > 0 ==> last_norm is Some,
            broyden_model(
                (|xs: Seq<T>| residual.spec_eval(xs)),
                tol,
                update_guard,
                x0@,
                identity_rows(x0@.len()),
                Option::<T>::None,
                0,
                max_iter as nat,
            ) == broyden_model(
                (|xs: Seq<T>| residual.spec_eval(xs)),
                tol,
                update_guard,
                x@,
                b.rows_view(),
                last_norm,
                k as nat,
                max_iter as nat,
            ),
        decreases max_iter - k,
    {
        let ghost xv = x@;
        let ghost bv = b.rows_view();
        let ghost last0 = last_norm;
        let fx = match residual.eval(&x) {
            Some(v) => v,
            None => {
                proof {
                    assert(broyden_model(
                        (|xs: Seq<T>| residual.spec_eval(xs)),
                        tol,
                        update_guard,
                        xv,
                        bv,
                        last0,
                        k as nat,
                        max_iter as nat,
                    ) == (xv, SolveStatus::ResidualUndefined, k as nat, last0));
                }
                return SolveOutcome {
                    x,
                    status: SolveStatus::ResidualUndefined,
                    iterations: k,
                    residual_norm: last_norm,
                };
            },
        };
        let norm = fx.norm();
        last_norm = Some(norm);
        if norm.lt(tol) {
            proof {
                assert(broyden_model(
                    (|xs: Seq<T>| residual.spec_eval(xs)),
                    tol,
                    update_guard,
                    xv,
                    bv,
                    last0,
                    k as nat,
                    max_iter as nat,
                ) == (xv, SolveStatus::Converged, k as nat, Some(norm_spec(fx@))));
            }
            return SolveOutcome {
                x,
                status: SolveStatus::Converged,
                iterations: k,
                residual_norm: Some(norm),
            };
        }
        let update = match solve_linear(&b, &fx) {
            Some(u) => u,
            None => {
                return SolveOutcome {
                    x,
                    status: SolveStatus::SingularJacobian,
                    iterations: k,
                    residual_norm: Some(norm),
                };
            },
        };
        let x_new = x.sub(&update);
        proof {
            assert(x_new@ =~= Seq::new(xv.len(), |i: int| xv[i].spec_sub(update@[i])));
        }
        let s = x_new.sub(&x);
        proof {
            assert(s@ =~= Seq::new(x_new@.len(), |i: int| x_new@[i].spec_sub(xv[i])));
        }
        let fx_new = match residual.eval(&x_new) {
            Some(v) => v,
            None => {
                return SolveOutcome {
                    x,
                    status: SolveStatus::ResidualUndefined,
                    iterations: k,
                    residual_norm: Some(norm),
                };
            },
        };
        let y = fx_new.sub(&fx);
        proof {
            assert(y@ =~= Seq::new(fx_new@.len(), |i: int| fx_new@[i].spec_sub(fx@[i])));
        }
        let bs = b.matvec(&s);
        proof {
            assert(bs@ =~= Seq::new(bv.len(), |i: int| dot_spec(bv[i], s@)));
        }
        let denom = s.dot(&s);
        if update_guard.lt(denom) {
            let ydiff = y.sub(&bs);
            let correction = Matrix::outer(&ydiff, &s).scale_div(denom);
            b = b.add(&correction);
            proof {
                assert forall|i: int| 0 <= i < bv.len() implies b.rows_view()[i] =~= Seq::new(
                    bv[i].len(),
                    |j: int|
                        bv[i][j].spec_add(
                            s@[j].spec_mul(y@[i].spec_sub(bs@[i])).spec_div(denom),
                        ),
                ) by {
                    assert forall|j: int| 0 <= j < bv[i].len() implies b.row_seq(i)[j] == bv[i][j].spec_add(
                        s@[j].spec_mul(y@[i].spec_sub(bs@[i])).spec_div(denom),
                    ) by {
                        assert(b.entry(i, j) == bv[i][j].spec_add(correction.entry(i, j)));
                        assert(correction.entry(i, j) == (s@[j].spec_mul(ydiff@[i])).spec_div(
                            denom,
                        ));
                        assert(ydiff@[i] == y@[i].spec_sub(bs@[i]));
                    }
                    assert(b.row_seq(i).len() == bv[i].len());
                }
            }
        }
        x = x_new;
        k = k + 1;
        proof {
            let xm = Seq::new(xv.len(), |i: int| xv[i].spec_sub(update@[i]));
            let stm = Seq::new(xm.len(), |i: int| xm[i].spec_sub(xv[i]));
            assert(x@ == xm);
            assert(s@ =~= stm);
            let fxm = fx_new@;
            let yvm = Seq::new(fxm.len(), |i: int| fxm[i].spec_sub(fx@[i]));
            assert(y@ =~= yvm);
            let bsm = Seq::new(bv.len(), |i: int| dot_spec(bv[i], stm));
            assert(bs@ =~= bsm);
            let b2m = if update_guard.spec_lt(denom) {
                Seq::new(
                    bv.len(),
                    |i: int|
                        Seq::new(
                            bv[i].len(),
                            |j: int|
                                bv[i][j].spec_add(
                                    stm[j].spec_mul(yvm[i].spec_sub(bsm[i])).spec_div(denom),
                                ),
                        ),
                )
            } else {
                bv
            };
            assert(b.rows_view() =~~= b2m);
        }
    }
    SolveOutcome {
        x,
        status: SolveStatus::IterationLimit,
        iterations: max_iter,
        residual_norm: last_norm,
    }
}

} // verus!
