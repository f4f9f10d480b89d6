//! The capability contract of a nonlinear affine system in port-Hamiltonian
//! form:
//!
//! `z' = f(z) + g(z) u`, `z(0) = z_0`, with output `y = h(z) + k(z) u`
//! and QSR-dissipativity structure.

use vstd::prelude::*;

use crate::matrix::Matrix;
use crate::scalar::Scalar;
use crate::vector::dot_spec;
use crate::vector::Vector;

verus! {

/// The output value `h(z) + k(z) u`, entry by entry over the scalar hooks.
pub open spec fn output_sum<T: Scalar>(h_out: Seq<T>, k: Matrix<T>, u: Seq<T>) -> Seq<T> {
    Seq::new(h_out.len(), |i: int| h_out[i].spec_add(dot_spec(k.row_seq(i), u)))
}

/// What a simulated system must expose to the integrators.
///
/// Each executable method is tied to a specification hook the implementation
/// provides (`spec_eta` and so on). The library claims nothing about what
/// the hooks mean — a system's behaviour is its own — but the tie lets every
/// caller state exactly which system value it consumed. The integrators
/// still check every shape they depend on at run time and fail fast on a
/// mismatch, since implementations live with the caller and are not
/// verified.
pub trait NonlinearQSRSystem<T: Scalar> {
    /// The value `state_dim` returns.
    open spec fn spec_state_dim(&self) -> usize {
        arbitrary()
    }

    /// The value `control_dim` returns.
    open spec fn spec_control_dim(&self) -> usize {
        arbitrary()
    }

    /// The value `hamiltonian` returns.
    open spec fn spec_hamiltonian(&self, z: Seq<T>) -> T {
        arbitrary()
    }

    /// The entries `eta` returns.
    open spec fn spec_eta(&self, z: Seq<T>) -> Seq<T> {
        arbitrary()
    }

    /// The entries `f` returns.
    open spec fn spec_f(&self, z: Seq<T>) -> Seq<T> {
        arbitrary()
    }

    /// The matrix `g` returns.
    open spec fn spec_g(&self, z: Seq<T>) -> Matrix<T> {
        arbitrary()
    }

    /// The entries `dynamics` returns.
    open spec fn spec_dynamics(&self, z: Seq<T>, u: Seq<T>) -> Seq<T> {
        arbitrary()
    }

    /// The matrix `k` returns.
    open spec fn spec_k(&self, z: Seq<T>) -> Matrix<T> {
        arbitrary()
    }

    /// The matrices `qsr` returns.
    open spec fn spec_qsr(&self) -> (Matrix<T>, Matrix<T>, Matrix<T>) {
        arbitrary()
    }

    /// The entries `ell` returns.
    open spec fn spec_ell(&self, z: Seq<T>) -> Seq<T> {
        arbitrary()
    }

    /// The matrix `w` returns.
    open spec fn spec_w(&self, z: Seq<T>) -> Matrix<T> {
        arbitrary()
    }

    /// The entries `initial_state` returns.
    open spec fn spec_initial_state(&self) -> Seq<T> {
        arbitrary()
    }

    /// The entries `h` returns; the energy gradient unless overridden.
    open spec fn spec_h(&self, z: Seq<T>) -> Seq<T> {
        self.spec_eta(z)
    }

    /// State dimension.
    fn state_dim(&self) -> (r: usize)
        ensures
            r == self.spec_state_dim(),
    ;

    /// Control input dimension.
    fn control_dim(&self) -> (r: usize)
        ensures
            r == self.spec_control_dim(),
    ;

    /// Hamiltonian (energy function).
    fn hamiltonian(&self, z: &Vector<T>) -> (r: T)
        ensures
            r == self.spec_hamiltonian(z@),
    ;

    /// Gradient of the Hamiltonian.
    fn eta(&self, z: &Vector<T>) -> (r: Vector<T>)
        ensures
            r@ == self.spec_eta(z@),
    ;

    /// Combined Hamiltonian and gradient.
    fn ham_eta(&self, z: &Vector<T>) -> (r: (T, Vector<T>))
        ensures
            r.0 == self.spec_hamiltonian(z@),
            r.1@ == self.spec_eta(z@),
    ;

    /// Drift dynamics, typically `(J - R) * eta(z)`.
    fn f(&self, z: &Vector<T>) -> (r: Vector<T>)
        ensures
            r@ == self.spec_f(z@),
    ;

    /// Input matrix.
    fn g(&self, z: &Vector<T>) -> (r: Matrix<T>)
        ensures
            r == self.spec_g(z@),
    ;

    /// Full dynamics `f(z) + g(z) * u`.
    fn dynamics(&self, z: &Vector<T>, u: &Vector<T>) -> (r: Vector<T>)
        ensures
            r@ == self.spec_dynamics(z@, u@),
    ;

    /// Output map; typically the energy gradient, as [`Self::spec_h`]
    /// defaults to.
    fn h(&self, z: &Vector<T>) -> (r: Vector<T>)
        ensures
            r@ == self.spec_h(z@),
    ;

    /// Feedthrough matrix.
    fn k(&self, z: &Vector<T>) -> (r: Matrix<T>)
        ensures
            r == self.spec_k(z@),
    ;

    /// Output `h(z) + k(z) * u`, or `None` when the feedthrough shape does
    /// not fit the output and control dimensions.
    fn output(&self, z: &Vector<T>, u: &Vector<T>) -> (r: Option<Vector<T>>)
        default_ensures
            (r is Some <==> (self.spec_k(z@).wf() && self.spec_k(z@).row_count() == self.spec_h(
                z@,
            ).len() && self.spec_k(z@).col_count() == u@.len())),
            r matches Some(y) ==> y@ == output_sum(self.spec_h(z@), self.spec_k(z@), u@),
    {
        let hz = self.h(z);
        let kz = self.k(z);
        if kz.is_wf() && kz.nrows() == hz.dim() && kz.ncols() == u.dim() {
            let y = hz.add(&kz.matvec(u));
            proof {
                assert(y@ =~= output_sum(hz@, kz, u@));
            }
            Some(y)
        } else {
            None
        }
    }

    /// The matrices `(Q, S, R)` of the quadratic supply rate
    /// `s(y, u) = y^T Q y + 2 y^T S u + u^T R u`.
    fn qsr(&self) -> (r: (Matrix<T>, Matrix<T>, Matrix<T>))
        ensures
            r == self.spec_qsr(),
    ;

    /// Output dissipation vector.
    fn ell(&self, z: &Vector<T>) -> (r: Vector<T>)
        ensures
            r@ == self.spec_ell(z@),
    ;

    /// The auxiliary matrix of the Hill-Moylan conditions.
    fn w(&self, z: &Vector<T>) -> (r: Matrix<T>)
        ensures
            r == self.spec_w(z@),
    ;

    /// Initial state.
    fn initial_state(&self) -> (r: Vector<T>)
        ensures
            r@ == self.spec_initial_state(),
    ;
}

} // verus!
