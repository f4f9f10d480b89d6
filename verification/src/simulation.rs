//! Helpers around an integration run: the uniform time grid and the energy
//! sequence read off a computed trajectory.

use vstd::prelude::*;

use crate::nonlinear_system::NonlinearQSRSystem;
use crate::scalar::Scalar;
use crate::vector::Vector;

verus! {

/// The time grid `0, dt, 2 dt, ...` with `nt` points.
pub fn uniform_grid<T: Scalar>(nt: usize, dt: T) -> (r: Vector<T>)
    ensures
        r@.len() == nt,
        forall|i: int|
            0 <= i < nt ==> r@[i] == T::spec_from_usize(i as usize).spec_mul(dt),
{
    let mut ticks: Vec<T> = Vec::new();
    for i in 0..nt
        invariant
            ticks@.len() == i,
            forall|k: int| 0 <= k < i ==> ticks@[k] == T::spec_from_usize(k as usize).spec_mul(dt),
    {
        ticks.push(T::from_usize(i).mul(dt));
    }
    Vector::from_elems(ticks)
}

/// The system's energy at every state of a trajectory.
pub fn energy_sequence<T: Scalar, S: NonlinearQSRSystem<T>>(
    system: &S,
    zz: &Vec<Vector<T>>,
) -> (r: Vec<T>)
    ensures
        r@.len() == zz@.len(),
        forall|i: int| 0 <= i < r@.len() ==> r@[i] == system.spec_hamiltonian(zz@[i]@),
{
    let nt = zz.len();
    let mut out: Vec<T> = Vec::new();
    for i in 0..nt
        invariant
            nt == zz@.len(),
            out@.len() == i,
            forall|t: int| 0 <= t < i ==> out@[t] == system.spec_hamiltonian(zz@[t]@),
    {
        out.push(system.hamiltonian(&zz[i]));
    }
    out
}

} // verus!
