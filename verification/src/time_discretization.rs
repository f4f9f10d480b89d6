//! The time-discretization layer: an implicit midpoint integrator and a
//! QSR discrete-gradient integrator, both resolving their implicit stage
//! equations through the Broyden root solver.

use vstd::prelude::*;

use crate::broyden::broyden;
use crate::broyden::broyden_model;
use crate::broyden::identity_rows;
use crate::broyden::Residual;
use crate::broyden::SolveStatus;
use crate::linsolve::solve_linear;
use crate::matrix::Matrix;
use crate::nonlinear_system::NonlinearQSRSystem;
use crate::scalar::Scalar;
use crate::linsolve::solve_spec;
use crate::linsolve::views_of;
use crate::vector::dot_spec;
use crate::vector::norm_spec;
use crate::vector::Vector;

verus! {

/// Why an integration run was refused or abandoned.
#[derive(Clone, Copy, PartialEq, Eq, Debug)]
pub enum IntegrationError {
    /// The time grid has fewer than two points, so no step size exists.
    GridTooShort,
    /// The control trajectory is ragged or does not have one row per grid
    /// point.
    ControlShapeMismatch,
    /// The initial state or the control width contradicts the dimensions the
    /// system declares.
    SystemDimensionMismatch,
    /// A stage equation could not be evaluated: the system handed back a
    /// shape that does not fit, or the auxiliary supply-rate solve was
    /// singular.
    StageUndefined,
}

/// Settings for the stage equation solver.
pub struct SolverParams<T> {
    /// Iteration budget per stage.
    pub max_iter: usize,
    /// Residual norm below which a stage counts as resolved.
    pub tol: T,
    /// Squared step length below which the secant update is skipped.
    pub update_guard: T,
}

/// One implicit-midpoint stage: the residual whose root is the next state.
pub struct MidpointStage<'a, T: Scalar, S: NonlinearQSRSystem<T>> {
    pub system: &'a S,
    pub z_prev: Vector<T>,
    pub u_mid: Vector<T>,
    pub dt: T,
    pub half: T,
}

/// The implicit midpoint stage residual
/// `x - z_prev - dt * dynamics((z_prev + x) / 2, u_mid)`, over the hooks.
pub open spec fn midpoint_residual<T: Scalar, S: NonlinearQSRSystem<T>>(
    system: &S,
    z_prev: Seq<T>,
    u_mid: Seq<T>,
    dt: T,
    half: T,
    x: Seq<T>,
) -> Option<Seq<T>> {
    if x.len() != z_prev.len() {
        None
    } else {
        let z_mid = Seq::new(x.len(), |i: int| z_prev[i].spec_add(x[i]).spec_mul(half));
        let fz = system.spec_dynamics(z_mid, u_mid);
        if fz.len() != x.len() {
            None
        } else {
            Some(
                Seq::new(x.len(), |i: int| x[i].spec_sub(z_prev[i]).spec_sub(fz[i].spec_mul(dt))),
            )
        }
    }
}

impl<'a, T: Scalar, S: NonlinearQSRSystem<T>> Residual<T> for MidpointStage<'a, T, S> {
    /// The stage residual is [`midpoint_residual`] of the stage's data.
    open spec fn spec_eval(&self, x: Seq<T>) -> Option<Seq<T>> {
        midpoint_residual(self.system, self.z_prev@, self.u_mid@, self.dt, self.half, x)
    }

    fn eval(&self, x: &Vector<T>) -> (r: Option<Vector<T>>) {
        if x.dim() != self.z_prev.dim() {
            return None;
        }
        let z_mid = self.z_prev.add(x).scale(self.half);
        proof {
            assert(z_mid@ =~= Seq::new(
                x@.len(),
                |i: int| self.z_prev@[i].spec_add(x@[i]).spec_mul(self.half),
            ));
        }
        let fz = self.system.dynamics(&z_mid, &self.u_mid);
        if fz.dim() != x.dim() {
            return None;
        }
        let out = x.sub(&self.z_prev).sub(&fz.scale(self.dt));
        proof {
            assert(out@ =~= Seq::new(
                x@.len(),
                |i: int| x@[i].spec_sub(self.z_prev@[i]).spec_sub(fz@[i].spec_mul(self.dt)),
            ));
        }
        Some(out)
    }
}

/// Row `i` of the identity matrix of order `n`, over the hooks.
pub open spec fn ident_row<T: Scalar>(n: nat, i: int) -> Seq<T> {
    Seq::new(
        n,
        |j: int|
            if i == j {
                T::spec_one()
            } else {
                T::spec_zero()
            },
    )
}

/// Row `i` of the projector onto the subspace orthogonal to the unit vector
/// `eta_unit`, over the hooks.
pub open spec fn proj_row<T: Scalar>(n: nat, eta_unit: Seq<T>, i: int) -> Seq<T> {
    Seq::new(
        n,
        |j: int|
            (
            if i == j {
                T::spec_one()
            } else {
                T::spec_zero()
            }).spec_sub(eta_unit[j].spec_mul(eta_unit[i])),
    )
}

/// One discrete-gradient stage: the residual whose root is the next state.
pub struct QsrStage<'a, T: Scalar, S: NonlinearQSRSystem<T>> {
    pub system: &'a S,
    pub q: &'a Matrix<T>,
    pub s_mat: &'a Matrix<T>,
    pub z_prev: Vector<T>,
    pub u_mid: Vector<T>,
    pub ham_prev: T,
    pub dt: T,
    pub half: T,
    pub degeneracy_guard: T,
}

/// The discrete-gradient stage residual, over the hooks: the correction
/// `eta_bar` of the midpoint gradient enforces the exact secant identity
/// of the energy, the projector removes the drift component along
/// `eta_bar`, and the scalar rate recovered from the supply-rate solve
/// reinstates exactly the dissipation the QSR structure prescribes.
pub open spec fn qsr_residual<T: Scalar, S: NonlinearQSRSystem<T>>(
    system: &S,
    q: Matrix<T>,
    s_mat: Matrix<T>,
    z_prev: Seq<T>,
    u_mid: Seq<T>,
    ham_prev: T,
    dt: T,
    half: T,
    degeneracy_guard: T,
    x: Seq<T>,
) -> Option<Seq<T>> {
    if x.len() != z_prev.len() {
        None
    } else {
        let z_mid = Seq::new(x.len(), |i: int| z_prev[i].spec_add(x[i]).spec_mul(half));
        let eta_mid = system.spec_eta(z_mid);
        if eta_mid.len() != z_prev.len() {
            None
        } else {
            let ham_next = system.spec_hamiltonian(x);
            let diff = Seq::new(x.len(), |i: int| x[i].spec_sub(z_prev[i]));
            let alpha1 = ham_next.spec_sub(ham_prev).spec_sub(dot_spec(eta_mid, diff));
            let alpha2 = dot_spec(diff, diff);
            let eta_bar = if alpha2.spec_abs().spec_lt(degeneracy_guard) {
                eta_mid
            } else {
                Seq::new(
                    x.len(),
                    |i: int| diff[i].spec_mul(alpha1.spec_div(alpha2)).spec_add(eta_mid[i]),
                )
            };
            let norm_eta = norm_spec(eta_bar);
            let degenerate = norm_eta.spec_lt(degeneracy_guard);
            let eta_unit = Seq::new(x.len(), |i: int| eta_bar[i].spec_div(norm_eta));
            let f_mid = system.spec_f(z_mid);
            if f_mid.len() != z_prev.len() {
                None
            } else {
                let g_mid = system.spec_g(z_mid);
                let m = u_mid.len();
                if !(g_mid.wf() && g_mid.row_count() == z_prev.len() && g_mid.col_count() == m) {
                    None
                } else {
                    let k_mid = system.spec_k(z_mid);
                    if !(k_mid.wf() && k_mid.row_count() == m && k_mid.col_count() == m) {
                        None
                    } else if !(q.wf() && q.row_count() == m && q.col_count()
                    == m) {
                        None
                    } else if !(s_mat.wf() && s_mat.row_count() == m
                    && s_mat.col_count() == m) {
                        None
                    } else {
                        let ell_mid = system.spec_ell(z_mid);
                        let w_mid = system.spec_w(z_mid);
                        if !(w_mid.wf() && w_mid.row_count() == ell_mid.len()
                        && w_mid.col_count() == m) {
                            None
                        } else {
                            let aux = Seq::new(
                                m,
                                |j: int|
                                    Seq::new(
                                        m,
                                        |i: int|
                                            dot_spec(
                                                q.row_seq(i),
                                                k_mid.col_seq(j),
                                            ).spec_add(s_mat.entry(i, j)),
                                    ),
                            );
                            let rhs = Seq::new(
                                m,
                                |i: int|
                                    dot_spec(g_mid.col_seq(i), eta_bar).spec_mul(
                                        half,
                                    ).spec_add(dot_spec(w_mid.col_seq(i), ell_mid)),
                            );
                            match solve_spec(aux, rhs) {
                                Option::None => None,
                                Option::Some(h_mid) => {
                                    let gamma = if degenerate {
                                        T::spec_zero()
                                    } else {
                                        let qh = Seq::new(
                                            m,
                                            |i: int| dot_spec(q.row_seq(i), h_mid),
                                        );
                                        dot_spec(h_mid, qh).spec_sub(
                                            dot_spec(ell_mid, ell_mid),
                                        ).spec_div(norm_eta.spec_mul(norm_eta))
                                    };
                                    let pf = if degenerate {
                                        Seq::new(
                                            x.len(),
                                            |i: int| dot_spec(ident_row(x.len(), i), f_mid),
                                        )
                                    } else {
                                        Seq::new(
                                            x.len(),
                                            |i: int|
                                                dot_spec(proj_row(x.len(), eta_unit, i), f_mid),
                                        )
                                    };
                                    Some(
                                        Seq::new(
                                            x.len(),
                                            |i: int|
                                                x[i].spec_sub(z_prev[i]).spec_sub(
                                                    eta_bar[i].spec_mul(gamma).spec_add(
                                                        pf[i],
                                                    ).spec_add(
                                                        dot_spec(g_mid.row_seq(i), u_mid),
                                                    ).spec_mul(dt),
                                                ),
                                        ),
                                    )
                                },
                            }
                        }
                    }
                }
            }
        }
    }
}

impl<'a, T: Scalar, S: NonlinearQSRSystem<T>> Residual<T> for QsrStage<'a, T, S> {
    /// The stage residual is [`qsr_residual`] of the stage's data.
    open spec fn spec_eval(&self, x: Seq<T>) -> Option<Seq<T>> {
        qsr_residual(
            self.system,
            *self.q,
            *self.s_mat,
            self.z_prev@,
            self.u_mid@,
            self.ham_prev,
            self.dt,
            self.half,
            self.degeneracy_guard,
            x,
        )
    }

    fn eval(&self, x: &Vector<T>) -> (r: Option<Vector<T>>) {
        let n = self.z_prev.dim();
        if x.dim() != n {
            return None;
        }
        let z_mid = self.z_prev.add(x).scale(self.half);
        proof {
            assert(z_mid@ =~= Seq::new(
                x@.len(),
                |i: int| self.z_prev@[i].spec_add(x@[i]).spec_mul(self.half),
            ));
        }
        let eta_pair = self.system.ham_eta(&z_mid);
        let eta_mid = eta_pair.1;
        if eta_mid.dim() != n {
            return None;
        }
        let ham_pair = self.system.ham_eta(x);
        let ham_next = ham_pair.0;

        // Discrete-gradient correction of the midpoint gradient.
        let diff = x.sub(&self.z_prev);
        proof {
            assert(diff@ =~= Seq::new(x@.len(), |i: int| x@[i].spec_sub(self.z_prev@[i])));
        }
        let alpha1 = ham_next.sub(self.ham_prev).sub(eta_mid.dot(&diff));
        let alpha2 = diff.dot(&diff);
        let degenerate_step = alpha2.abs().lt(self.degeneracy_guard);
        let eta_bar = if degenerate_step {
            eta_mid
        } else {
            let corrected = diff.scale(alpha1.div(alpha2)).add(&eta_mid);
            proof {
                assert(corrected@ =~= Seq::new(
                    x@.len(),
                    |i: int|
                        diff@[i].spec_mul(alpha1.spec_div(alpha2)).spec_add(
                            self.system.spec_eta(z_mid@)[i],
                        ),
                ));
            }
            corrected
        };

        // Projector onto the subspace orthogonal to eta_bar.
        let norm_eta = eta_bar.norm();
        let degenerate = norm_eta.lt(self.degeneracy_guard);
        let projection = if degenerate {
            let p: Matrix<T> = Matrix::identity(n);
            proof {
                assert forall|i: int| 0 <= i < n implies p.row_seq(i) =~= ident_row::<T>(
                    n as nat,
                    i,
                ) by {
                    assert forall|j: int| 0 <= j < n implies p.row_seq(i)[j] == ident_row::<T>(
                        n as nat,
                        i,
                    )[j] by {
                        assert(p.entry(i, j) == if i == j {
                            T::spec_one()
                        } else {
                            T::spec_zero()
                        });
                    }
                    assert(p.row_seq(i).len() == n);
                }
            }
            p
        } else {
            let eta_unit = eta_bar.scale_div(norm_eta);
            let id_part: Matrix<T> = Matrix::identity(n);
            let outer_part = Matrix::outer(&eta_unit, &eta_unit);
            let p = id_part.sub(&outer_part);
            proof {
                let su = Seq::new(x@.len(), |t: int| eta_bar@[t].spec_div(norm_eta));
                assert(eta_unit@ =~= su);
                assert forall|i: int| 0 <= i < n implies p.row_seq(i) =~= proj_row::<T>(
                    n as nat,
                    su,
                    i,
                ) by {
                    assert forall|j: int| 0 <= j < n implies p.row_seq(i)[j] == proj_row::<T>(
                        n as nat,
                        su,
                        i,
                    )[j] by {
                        assert(p.entry(i, j) == id_part.entry(i, j).spec_sub(
                            outer_part.entry(i, j),
                        ));
                        assert(id_part.entry(i, j) == if i == j {
                            T::spec_one()
                        } else {
                            T::spec_zero()
                        });
                        assert(outer_part.entry(i, j) == eta_unit@[j].spec_mul(eta_unit@[i]));
                        assert(su[j] == eta_unit@[j]);
                        assert(su[i] == eta_unit@[i]);
                    }
                    assert(p.row_seq(i).len() == n);
                }
            }
            p
        };

        // Structure data at the midpoint, each shape checked before use.
        let f_mid = self.system.f(&z_mid);
        if f_mid.dim() != n {
            return None;
        }
        let g_mid = self.system.g(&z_mid);
        let m = self.u_mid.dim();
        if !(g_mid.is_wf() && g_mid.nrows() == n && g_mid.ncols() == m) {
            return None;
        }
        let k_mid = self.system.k(&z_mid);
        if !(k_mid.is_wf() && k_mid.nrows() == m && k_mid.ncols() == m) {
            return None;
        }
        if !(self.q.is_wf() && self.q.nrows() == m && self.q.ncols() == m) {
            return None;
        }
        if !(self.s_mat.is_wf() && self.s_mat.nrows() == m && self.s_mat.ncols() == m) {
            return None;
        }
        let ell_mid = self.system.ell(&z_mid);
        let w_mid = self.system.w(&z_mid);
        if !(w_mid.is_wf() && w_mid.nrows() == ell_mid.dim() && w_mid.ncols() == m) {
            return None;
        }

        // The Hill-Moylan auxiliary vector: solve (Q k + S)^T h = rhs.
        let qk = self.q.matmul(&k_mid);
        let qk_s = qk.add(self.s_mat);
        let qk_st = qk_s.transpose();
        proof {
            assert forall|j: int| 0 <= j < m implies qk_st.row_seq(j) =~= Seq::new(
                m as nat,
                |i: int| dot_spec(self.q.row_seq(i), k_mid.col_seq(j)).spec_add(
                    self.s_mat.entry(i, j),
                ),
            ) by {
                assert forall|i: int| 0 <= i < m implies qk_st.row_seq(j)[i] == dot_spec(
                    self.q.row_seq(i),
                    k_mid.col_seq(j),
                ).spec_add(self.s_mat.entry(i, j)) by {
                    assert(qk_st.entry(j, i) == qk_s.entry(i, j));
                    assert(qk_s.entry(i, j) == qk.entry(i, j).spec_add(self.s_mat.entry(i, j)));
                    assert(qk.entry(i, j) == dot_spec(self.q.row_seq(i), k_mid.col_seq(j)));
                }
                assert(qk_st.row_seq(j).len() == m);
            }
            assert(qk_st.rows_view() =~= Seq::new(
                m as nat,
                |j: int|
                    Seq::new(
                        m as nat,
                        |i: int|
                            dot_spec(self.q.row_seq(i), k_mid.col_seq(j)).spec_add(
                                self.s_mat.entry(i, j),
                            ),
                    ),
            ));
        }
        let gt = g_mid.transpose();
        let wt = w_mid.transpose();
        proof {
            assert forall|i: int| 0 <= i < m implies gt.row_seq(i) =~= g_mid.col_seq(i) by {}
            assert forall|i: int| 0 <= i < m implies wt.row_seq(i) =~= w_mid.col_seq(i) by {}
        }
        let rhs = gt.matvec(&eta_bar).scale(self.half).add(&wt.matvec(&ell_mid));
        proof {
            assert(rhs@ =~= Seq::new(
                m as nat,
                |i: int|
                    dot_spec(g_mid.col_seq(i), eta_bar@).spec_mul(self.half).spec_add(
                        dot_spec(w_mid.col_seq(i), ell_mid@),
                    ),
            ));
        }
        let h_mid = match solve_linear(&qk_st, &rhs) {
            Some(v) => v,
            None => {
                return None;
            },
        };

        // The scalar dissipation rate along eta_bar.
        let gamma = if degenerate {
            T::zero()
        } else {
            let qh = self.q.matvec(&h_mid);
            proof {
                assert(qh@ =~= Seq::new(
                    m as nat,
                    |i: int| dot_spec(self.q.row_seq(i), h_mid@),
                ));
            }
            h_mid.dot(&qh).sub(ell_mid.dot(&ell_mid)).div(norm_eta.mul(norm_eta))
        };

        let pf = projection.matvec(&f_mid);
        let uncontrolled = eta_bar.scale(gamma).add(&pf);
        let controlled = uncontrolled.add(&g_mid.matvec(&self.u_mid));
        let out = x.sub(&self.z_prev).sub(&controlled.scale(self.dt));
        proof {
            assert(out@ =~= Seq::new(
                x@.len(),
                |i: int|
                    x@[i].spec_sub(self.z_prev@[i]).spec_sub(
                        eta_bar@[i].spec_mul(gamma).spec_add(pf@[i]).spec_add(
                            dot_spec(g_mid.row_seq(i), self.u_mid@),
                        ).spec_mul(self.dt),
                    ),
            ));
            // Bridge every executable intermediate to the canonical term the
            // specification mirror is built of.
            let l = x@.len();
            let zp = self.z_prev@;
            let zm = Seq::new(l, |i: int| zp[i].spec_add(x@[i]).spec_mul(self.half));
            let em = self.system.spec_eta(zm);
            let dm = Seq::new(l, |i: int| x@[i].spec_sub(zp[i]));
            assert(diff@ =~= dm);
            let a1 = self.system.spec_hamiltonian(x@).spec_sub(self.ham_prev).spec_sub(
                dot_spec(em, dm),
            );
            let a2 = dot_spec(dm, dm);
            assert(alpha1 == a1);
            assert(alpha2 == a2);
            let ebm = if a2.spec_abs().spec_lt(self.degeneracy_guard) {
                em
            } else {
                Seq::new(l, |i: int| dm[i].spec_mul(a1.spec_div(a2)).spec_add(em[i]))
            };
            assert(eta_bar@ =~= ebm);
            let nrm = norm_spec(ebm);
            assert(norm_eta == nrm);
            let eum = Seq::new(l, |i: int| ebm[i].spec_div(nrm));
            let fm = self.system.spec_f(zm);
            assert(f_mid@ == fm);
            let deg = nrm.spec_lt(self.degeneracy_guard);
            assert(degenerate == deg);
            let pfm = if deg {
                Seq::new(l, |i: int| dot_spec(ident_row(l, i), fm))
            } else {
                Seq::new(l, |i: int| dot_spec(proj_row(l, eum, i), fm))
            };
            assert forall|i: int| 0 <= i < l implies pf@[i] == pfm[i] by {
                assert(pf@[i] == dot_spec(projection.row_seq(i), f_mid@));
                if degenerate {
                    assert(projection.row_seq(i) == ident_row::<T>(n as nat, i));
                    assert(ident_row::<T>(n as nat, i) == ident_row::<T>(l, i));
                } else {
                    let su = Seq::new(x@.len(), |t: int| eta_bar@[t].spec_div(norm_eta));
                    assert(su =~= eum);
                    assert(projection.row_seq(i) == proj_row::<T>(n as nat, su, i));
                    assert(proj_row::<T>(n as nat, su, i) == proj_row::<T>(l, eum, i));
                }
            }
            assert(pf@ =~= pfm);
            let gmat = self.system.spec_g(zm);
            assert(g_mid == gmat);
            let km = self.system.spec_k(zm);
            assert(k_mid == km);
            let lm = self.system.spec_ell(zm);
            assert(ell_mid@ == lm);
            let wm = self.system.spec_w(zm);
            assert(w_mid == wm);
            let mm = self.u_mid@.len();
            let auxm = Seq::new(
                mm,
                |j: int|
                    Seq::new(
                        mm,
                        |i: int|
                            dot_spec(self.q.row_seq(i), km.col_seq(j)).spec_add(
                                self.s_mat.entry(i, j),
                            ),
                    ),
            );
            assert(qk_st.rows_view() =~~= auxm);
            let rhsm = Seq::new(
                mm,
                |i: int|
                    dot_spec(gmat.col_seq(i), ebm).spec_mul(self.half).spec_add(
                        dot_spec(wm.col_seq(i), lm),
                    ),
            );
            assert(rhs@ =~= rhsm);
            assert(solve_spec(auxm, rhsm) == Some(h_mid@));
            let qhm = Seq::new(mm, |i: int| dot_spec(self.q.row_seq(i), h_mid@));
            let gsc = if deg {
                T::spec_zero()
            } else {
                dot_spec(h_mid@, qhm).spec_sub(dot_spec(lm, lm)).spec_div(nrm.spec_mul(nrm))
            };
            assert(gamma == gsc);
            let outm = Seq::new(
                l,
                |i: int|
                    x@[i].spec_sub(zp[i]).spec_sub(
                        ebm[i].spec_mul(gsc).spec_add(pfm[i]).spec_add(
                            dot_spec(gmat.row_seq(i), self.u_mid@),
                        ).spec_mul(self.dt),
                    ),
            );
            assert(out@ =~= outm);
            assert(self.spec_eval(x@) == Some(outm));
        }
        Some(out)
    }
}

/// The averaged control row framing step `j`: the mean of control rows `j`
/// and `j - 1`.
pub open spec fn u_mid_row<T: Scalar>(uu: &Matrix<T>, j: int, half: T) -> Seq<T> {
    Seq::new(uu.col_count(), |c: int| uu.entry(j, c).spec_add(uu.entry(j - 1, c)).spec_mul(half))
}

/// The trajectory the implicit midpoint rule computes, continued from the
/// rows `zz` up to `nt` rows: each next row is the iterate the Broyden
/// recurrence returns for the midpoint stage residual seeded at the previous
/// row with the identity Jacobian approximation; `None` as soon as a stage
/// residual is undefined.
pub open spec fn midpoint_trajectory<T: Scalar, S: NonlinearQSRSystem<T>>(
    system: &S,
    uu: &Matrix<T>,
    dt: T,
    half: T,
    tol: T,
    update_guard: T,
    max_iter: nat,
    zz: Seq<Seq<T>>,
    nt: nat,
) -> Option<Seq<Seq<T>>>
    decreases nt - zz.len(),
{
    if zz.len() >= nt {
        Some(zz)
    } else {
        let j = zz.len() as int;
        let prev = zz[j - 1];
        let outcome = broyden_model(
            (|x: Seq<T>| midpoint_residual(system, prev, u_mid_row(uu, j, half), dt, half, x)),
            tol,
            update_guard,
            prev,
            identity_rows(prev.len()),
            Option::None,
            0,
            max_iter,
        );
        if outcome.1 is ResidualUndefined {
            None
        } else {
            midpoint_trajectory(
                system,
                uu,
                dt,
                half,
                tol,
                update_guard,
                max_iter,
                zz.push(outcome.0),
                nt,
            )
        }
    }
}

/// The trajectory the QSR discrete-gradient integrator computes, continued
/// from the rows `zz` up to `nt` rows: each next row is the iterate the
/// Broyden recurrence returns for the discrete-gradient stage residual
/// seeded at the previous row, the carried energy being the Hamiltonian of
/// that row; `None` as soon as a stage residual is undefined.
pub open spec fn qsr_trajectory<T: Scalar, S: NonlinearQSRSystem<T>>(
    system: &S,
    q: Matrix<T>,
    s_mat: Matrix<T>,
    uu: &Matrix<T>,
    dt: T,
    half: T,
    degeneracy_guard: T,
    tol: T,
    update_guard: T,
    max_iter: nat,
    zz: Seq<Seq<T>>,
    nt: nat,
) -> Option<Seq<Seq<T>>>
    decreases nt - zz.len(),
{
    if zz.len() >= nt {
        Some(zz)
    } else {
        let j = zz.len() as int;
        let prev = zz[j - 1];
        let outcome = broyden_model(
            (|x: Seq<T>|
                qsr_residual(
                    system,
                    q,
                    s_mat,
                    prev,
                    u_mid_row(uu, j, half),
                    system.spec_hamiltonian(prev),
                    dt,
                    half,
                    degeneracy_guard,
                    x,
                )),
            tol,
            update_guard,
            prev,
            identity_rows(prev.len()),
            Option::None,
            0,
            max_iter,
        );
        if outcome.1 is ResidualUndefined {
            None
        } else {
            qsr_trajectory(
                system,
                q,
                s_mat,
                uu,
                dt,
                half,
                degeneracy_guard,
                tol,
                update_guard,
                max_iter,
                zz.push(outcome.0),
                nt,
            )
        }
    }
}

/// The integrators consume the control trajectory only through the pairwise
/// midpoint averages of consecutive rows: two control matrices of equal
/// width whose consecutive-row sums agree over the grid give the same
/// implicit-midpoint model trajectory.
pub proof fn lemma_midpoint_controls_enter_by_averages<T: Scalar, S: NonlinearQSRSystem<T>>(
    system: &S,
    uu: &Matrix<T>,
    uu2: &Matrix<T>,
    dt: T,
    half: T,
    tol: T,
    update_guard: T,
    max_iter: nat,
    zz: Seq<Seq<T>>,
    nt: nat,
)
    requires
        1 <= zz.len(),
        uu.col_count() == uu2.col_count(),
        forall|j: int, c: int|
            1 <= j < nt && 0 <= c < uu.col_count() ==> #[trigger] uu.entry(j, c).spec_add(
                uu.entry(j - 1, c),
            ) == uu2.entry(j, c).spec_add(uu2.entry(j - 1, c)),
    ensures
        midpoint_trajectory(system, uu, dt, half, tol, update_guard, max_iter, zz, nt)
            == midpoint_trajectory(system, uu2, dt, half, tol, update_guard, max_iter, zz, nt),
    decreases nt - zz.len(),
{
    if zz.len() < nt {
        let j = zz.len() as int;
        assert(u_mid_row(uu, j, half) =~= u_mid_row(uu2, j, half));
        assert((|x: Seq<T>|
        midpoint_residual(system, zz[j - 1], u_mid_row(uu, j, half), dt, half, x)) =~= (|x: Seq<T>|
        midpoint_residual(system, zz[j - 1], u_mid_row(uu2, j, half), dt, half, x)));
        let outcome = broyden_model(
            (|x: Seq<T>| midpoint_residual(system, zz[j - 1], u_mid_row(uu, j, half), dt, half, x)),
            tol,
            update_guard,
            zz[j - 1],
            identity_rows(zz[j - 1].len()),
            Option::None,
            0,
            max_iter,
        );
        if !(outcome.1 is ResidualUndefined) {
            lemma_midpoint_controls_enter_by_averages(
                system,
                uu,
                uu2,
                dt,
                half,
                tol,
                update_guard,
                max_iter,
                zz.push(outcome.0),
                nt,
            );
        }
    }
}

/// The same consumption law for the QSR discrete-gradient integrator.
pub proof fn lemma_qsr_controls_enter_by_averages<T: Scalar, S: NonlinearQSRSystem<T>>(
    system: &S,
    q: Matrix<T>,
    s_mat: Matrix<T>,
    uu: &Matrix<T>,
    uu2: &Matrix<T>,
    dt: T,
    half: T,
    degeneracy_guard: T,
    tol: T,
    update_guard: T,
    max_iter: nat,
    zz: Seq<Seq<T>>,
    nt: nat,
)
    requires
        1 <= zz.len(),
        uu.col_count() == uu2.col_count(),
        forall|j: int, c: int|
            1 <= j < nt && 0 <= c < uu.col_count() ==> #[trigger] uu.entry(j, c).spec_add(
                uu.entry(j - 1, c),
            ) == uu2.entry(j, c).spec_add(uu2.entry(j - 1, c)),
    ensures
        qsr_trajectory(
            system,
            q,
            s_mat,
            uu,
            dt,
            half,
            degeneracy_guard,
            tol,
            update_guard,
            max_iter,
            zz,
            nt,
        ) == qsr_trajectory(
            system,
            q,
            s_mat,
            uu2,
            dt,
            half,
            degeneracy_guard,
            tol,
            update_guard,
            max_iter,
            zz,
            nt,
        ),
    decreases nt - zz.len(),
{
    if zz.len() < nt {
        let j = zz.len() as int;
        assert(u_mid_row(uu, j, half) =~= u_mid_row(uu2, j, half));
        assert((|x: Seq<T>|
        qsr_residual(
            system,
            q,
            s_mat,
            zz[j - 1],
            u_mid_row(uu, j, half),
            system.spec_hamiltonian(zz[j - 1]),
            dt,
            half,
            degeneracy_guard,
            x,
        )) =~= (|x: Seq<T>|
        qsr_residual(
            system,
            q,
            s_mat,
            zz[j - 1],
            u_mid_row(uu2, j, half),
            system.spec_hamiltonian(zz[j - 1]),
            dt,
            half,
            degeneracy_guard,
            x,
        )));
        let outcome = broyden_model(
            (|x: Seq<T>|
                qsr_residual(
                    system,
                    q,
                    s_mat,
                    zz[j - 1],
                    u_mid_row(uu, j, half),
                    system.spec_hamiltonian(zz[j - 1]),
                    dt,
                    half,
                    degeneracy_guard,
                    x,
                )),
            tol,
            update_guard,
            zz[j - 1],
            identity_rows(zz[j - 1].len()),
            Option::None,
            0,
            max_iter,
        );
        if !(outcome.1 is ResidualUndefined) {
            lemma_qsr_controls_enter_by_averages(
                system,
                q,
                s_mat,
                uu,
                uu2,
                dt,
                half,
                degeneracy_guard,
                tol,
                update_guard,
                max_iter,
                zz.push(outcome.0),
                nt,
            );
        }
    }
}

/// The implicit midpoint rule for `z' = dynamics(z, u)`.
///
/// Per step the stage equation
/// `z_j - z_{j-1} - dt * dynamics((z_{j-1} + z_j) / 2, u_mid) = 0`
/// is resolved by the Broyden solver seeded at `z_{j-1}`, and the returned
/// iterate is accepted unconditionally; `dt` is the spacing of the first two
/// grid points, applied to every step, and `u_mid` is the average of the two
/// control rows framing the step. On inputs that pass the grid, control and
/// dimension checks, the result is exactly what [`midpoint_trajectory`]
/// computes from the initial state.
pub fn implicit_midpoint<T: Scalar, S: NonlinearQSRSystem<T>>(
    system: &S,
    tt: &Vector<T>,
    z0: &Vector<T>,
    uu: &Matrix<T>,
    params: &SolverParams<T>,
) -> (r: Result<Vec<Vector<T>>, IntegrationError>)
    ensures
        (r matches Err(e) && e is GridTooShort) <==> tt@.len() < 2,
        tt@.len() >= 2 ==> ((r matches Err(e) && e is ControlShapeMismatch) <==> !(uu.wf()
            && uu.row_count() == tt@.len())),
        r matches Ok(zz) ==> zz@.len() == tt@.len(),
        r matches Ok(zz) ==> zz@[0]@ == z0@,
        r matches Ok(zz) ==> forall|i: int|
            0 <= i < zz@.len() ==> (#[trigger] zz@[i])@.len() == z0@.len(),
        (tt@.len() >= 2 && uu.wf() && uu.row_count() == tt@.len()) ==> ((r matches Err(e)
            && e is SystemDimensionMismatch) <==> !(z0@.len() == system.spec_state_dim()
            && uu.col_count() == system.spec_control_dim())),
        (r matches Err(e) && e is StageUndefined) ==> tt@.len() >= 2 && uu.wf() && uu.row_count()
            == tt@.len() && z0@.len() == system.spec_state_dim() && uu.col_count()
            == system.spec_control_dim(),
        (tt@.len() >= 2 && uu.wf() && uu.row_count() == tt@.len() && z0@.len()
            == system.spec_state_dim() && uu.col_count() == system.spec_control_dim()) ==> (match
        midpoint_trajectory(
            system,
            uu,
            tt@[1].spec_sub(tt@[0]),
            T::spec_one().spec_div(T::spec_from_usize(2)),
            params.tol,
            params.update_guard,
            params.max_iter as nat,
            seq![z0@],
            tt@.len(),
        ) {
            Option::Some(rows) => r matches Ok(zz) && views_of(zz@) == rows,
            Option::None => r matches Err(e) && e is StageUndefined,
        }),
{
    let nt = tt.dim();
    if nt < 2 {
        return Err(IntegrationError::GridTooShort);
    }
    if !(uu.is_wf() && uu.nrows() == nt) {
        return Err(IntegrationError::ControlShapeMismatch);
    }
    if z0.dim() != system.state_dim() || uu.ncols() != system.control_dim() {
        return Err(IntegrationError::SystemDimensionMismatch);
    }
    let dt = tt.get(1).sub(tt.get(0));
    let half = T::one().div(T::from_usize(2));

    let mut zz: Vec<Vector<T>> = Vec::new();
    zz.push(z0.duplicate());
    proof {
        assert(views_of(zz@) =~= seq![z0@]);
    }
    let mut j: usize = 1;
    while j < nt
        invariant
            1 <= j <= nt,
            2 <= nt,
            nt == tt@.len(),
            uu.wf(),
            uu.row_count() == nt,
            z0@.len() == system.spec_state_dim(),
            uu.col_count() == system.spec_control_dim(),
            zz@.len() == j,
            zz@[0]@ == z0@,
            forall|i: int| 0 <= i < j ==> (#[trigger] zz@[i])@.len() == z0@.len(),
            dt == tt@[1].spec_sub(tt@[0]),
            half == T::spec_one().spec_div(T::spec_from_usize(2)),
            midpoint_trajectory(
                system,
                uu,
                dt,
                half,
                params.tol,
                params.update_guard,
                params.max_iter as nat,
                seq![z0@],
                nt as nat,
            ) == midpoint_trajectory(
                system,
                uu,
                dt,
                half,
                params.tol,
                params.update_guard,
                params.max_iter as nat,
                views_of(zz@),
                nt as nat,
            ),
        decreases nt - j,
    {
        let ghost vz = views_of(zz@);
        let z_prev = zz[j - 1].duplicate();
        let u_mid = uu.row(j).add(&uu.row(j - 1)).scale(half);
        let stage = MidpointStage { system, z_prev: z_prev.duplicate(), u_mid, dt, half };
        proof {
            assert(stage.u_mid@ =~= u_mid_row(uu, j as int, half));
            assert(vz[j - 1] == z_prev@);
            assert((|xs: Seq<T>| stage.spec_eval(xs)) =~= (|x: Seq<T>|
            midpoint_residual(system, vz[j - 1], u_mid_row(uu, j as int, half), dt, half, x)));
        }
        let outcome = broyden(&stage, &z_prev, params.max_iter, params.tol, params.update_guard);
        proof {
            assert(midpoint_trajectory(
                system,
                uu,
                dt,
                half,
                params.tol,
                params.update_guard,
                params.max_iter as nat,
                vz,
                nt as nat,
            ) == if outcome.status is ResidualUndefined {
                Option::<Seq<Seq<T>>>::None
            } else {
                midpoint_trajectory(
                    system,
                    uu,
                    dt,
                    half,
                    params.tol,
                    params.update_guard,
                    params.max_iter as nat,
                    vz.push(outcome.x@),
                    nt as nat,
                )
            });
        }
        match outcome.status {
            SolveStatus::ResidualUndefined => {
                return Err(IntegrationError::StageUndefined);
            },
            _ => {},
        }
        zz.push(outcome.x);
        proof {
            assert(views_of(zz@) =~= vz.push(zz@[j as int]@));
        }
        j = j + 1;
    }
    proof {
        assert(midpoint_trajectory(
            system,
            uu,
            dt,
            half,
            params.tol,
            params.update_guard,
            params.max_iter as nat,
            views_of(zz@),
            nt as nat,
        ) == Some(views_of(zz@)));
    }
    Ok(zz)
}

/// The QSR discrete-gradient integrator for dissipative port-Hamiltonian
/// systems.
///
/// Same grid and control preconditions as the implicit midpoint rule; per
/// step the stage residual is built so the discrete energy change matches
/// the system's QSR dissipation structure exactly, and the Broyden iterate
/// is accepted unconditionally. The energy at the accepted state is carried
/// into the next stage. On inputs that pass the grid, control and dimension
/// checks, the result is exactly what [`qsr_trajectory`] computes from the
/// initial state.
pub fn qsr_discrete_gradient<T: Scalar, S: NonlinearQSRSystem<T>>(
    system: &S,
    tt: &Vector<T>,
    z0: &Vector<T>,
    uu: &Matrix<T>,
    params: &SolverParams<T>,
    degeneracy_guard: T,
) -> (r: Result<Vec<Vector<T>>, IntegrationError>)
    ensures
        (r matches Err(e) && e is GridTooShort) <==> tt@.len() < 2,
        tt@.len() >= 2 ==> ((r matches Err(e) && e is ControlShapeMismatch) <==> !(uu.wf()
            && uu.row_count() == tt@.len())),
        r matches Ok(zz) ==> zz@.len() == tt@.len(),
        r matches Ok(zz) ==> zz@[0]@ == z0@,
        r matches Ok(zz) ==> forall|i: int|
            0 <= i < zz@.len() ==> (#[trigger] zz@[i])@.len() == z0@.len(),
        (tt@.len() >= 2 && uu.wf() && uu.row_count() == tt@.len()) ==> ((r matches Err(e)
            && e is SystemDimensionMismatch) <==> !(z0@.len() == system.spec_state_dim()
            && uu.col_count() == system.spec_control_dim())),
        (r matches Err(e) && e is StageUndefined) ==> tt@.len() >= 2 && uu.wf() && uu.row_count()
            == tt@.len() && z0@.len() == system.spec_state_dim() && uu.col_count()
            == system.spec_control_dim(),
        (tt@.len() >= 2 && uu.wf() && uu.row_count() == tt@.len() && z0@.len()
            == system.spec_state_dim() && uu.col_count() == system.spec_control_dim()) ==> (match
        qsr_trajectory(
            system,
            system.spec_qsr().0,
            system.spec_qsr().1,
            uu,
            tt@[1].spec_sub(tt@[0]),
            T::spec_one().spec_div(T::spec_from_usize(2)),
            degeneracy_guard,
            params.tol,
            params.update_guard,
            params.max_iter as nat,
            seq![z0@],
            tt@.len(),
        ) {
            Option::Some(rows) => r matches Ok(zz) && views_of(zz@) == rows,
            Option::None => r matches Err(e) && e is StageUndefined,
        }),
{
    let nt = tt.dim();
    if nt < 2 {
        return Err(IntegrationError::GridTooShort);
    }
    if !(uu.is_wf() && uu.nrows() == nt) {
        return Err(IntegrationError::ControlShapeMismatch);
    }
    if z0.dim() != system.state_dim() || uu.ncols() != system.control_dim() {
        return Err(IntegrationError::SystemDimensionMismatch);
    }
    let dt = tt.get(1).sub(tt.get(0));
    let half = T::one().div(T::from_usize(2));
    let qsr_triple = system.qsr();
    let q = qsr_triple.0;
    let s_mat = qsr_triple.1;
    let ham_pair = system.ham_eta(z0);
    let mut ham_prev = ham_pair.0;

    let mut zz: Vec<Vector<T>> = Vec::new();
    zz.push(z0.duplicate());
    proof {
        assert(views_of(zz@) =~= seq![z0@]);
    }
    let mut j: usize = 1;
    while j < nt
        invariant
            1 <= j <= nt,
            2 <= nt,
            nt == tt@.len(),
            uu.wf(),
            uu.row_count() == nt,
            z0@.len() == system.spec_state_dim(),
            uu.col_count() == system.spec_control_dim(),
            zz@.len() == j,
            zz@[0]@ == z0@,
            forall|i: int| 0 <= i < j ==> (#[trigger] zz@[i])@.len() == z0@.len(),
            dt == tt@[1].spec_sub(tt@[0]),
            half == T::spec_one().spec_div(T::spec_from_usize(2)),
            q == system.spec_qsr().0,
            s_mat == system.spec_qsr().1,
            ham_prev == system.spec_hamiltonian(zz@[j - 1]@),
            qsr_trajectory(
                system,
                system.spec_qsr().0,
                system.spec_qsr().1,
                uu,
                dt,
                half,
                degeneracy_guard,
                params.tol,
                params.update_guard,
                params.max_iter as nat,
                seq![z0@],
                nt as nat,
            ) == qsr_trajectory(
                system,
                system.spec_qsr().0,
                system.spec_qsr().1,
                uu,
                dt,
                half,
                degeneracy_guard,
                params.tol,
                params.update_guard,
                params.max_iter as nat,
                views_of(zz@),
                nt as nat,
            ),
        decreases nt - j,
    {
        let ghost vz = views_of(zz@);
        let z_prev = zz[j - 1].duplicate();
        let u_mid = uu.row(j).add(&uu.row(j - 1)).scale(half);
        let stage = QsrStage {
            system,
            q: &q,
            s_mat: &s_mat,
            z_prev: z_prev.duplicate(),
            u_mid,
            ham_prev,
            dt,
            half,
            degeneracy_guard,
        };
        proof {
            assert(stage.u_mid@ =~= u_mid_row(uu, j as int, half));
            assert(vz[j - 1] == z_prev@);
            assert((|xs: Seq<T>| stage.spec_eval(xs)) =~= (|x: Seq<T>|
            qsr_residual(
                system,
                system.spec_qsr().0,
                system.spec_qsr().1,
                vz[j - 1],
                u_mid_row(uu, j as int, half),
                system.spec_hamiltonian(vz[j - 1]),
                dt,
                half,
                degeneracy_guard,
                x,
            )));
        }
        let outcome = broyden(&stage, &z_prev, params.max_iter, params.tol, params.update_guard);
        proof {
            assert(qsr_trajectory(
                system,
                system.spec_qsr().0,
                system.spec_qsr().1,
                uu,
                dt,
                half,
                degeneracy_guard,
                params.tol,
                params.update_guard,
                params.max_iter as nat,
                vz,
                nt as nat,
            ) == if outcome.status is ResidualUndefined {
                Option::<Seq<Seq<T>>>::None
            } else {
                qsr_trajectory(
                    system,
                    system.spec_qsr().0,
                    system.spec_qsr().1,
                    uu,
                    dt,
                    half,
                    degeneracy_guard,
                    params.tol,
                    params.update_guard,
                    params.max_iter as nat,
                    vz.push(outcome.x@),
                    nt as nat,
                )
            });
        }
        match outcome.status {
            SolveStatus::ResidualUndefined => {
                return Err(IntegrationError::StageUndefined);
            },
            _ => {},
        }
        let z_next = outcome.x;
        let next_pair = system.ham_eta(&z_next);
        ham_prev = next_pair.0;
        zz.push(z_next);
        proof {
            assert(views_of(zz@) =~= vz.push(zz@[j as int]@));
        }
        j = j + 1;
    }
    proof {
        assert(qsr_trajectory(
            system,
            system.spec_qsr().0,
            system.spec_qsr().1,
            uu,
            dt,
            half,
            degeneracy_guard,
            params.tol,
            params.update_guard,
            params.max_iter as nat,
            views_of(zz@),
            nt as nat,
        ) == Some(views_of(zz@)));
    }
    Ok(zz)
}

} // verus!
