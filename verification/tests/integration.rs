use phsim::broyden::{broyden, Residual, SolveStatus};
use phsim::linsolve::solve_linear;
use phsim::matrix::Matrix;
use phsim::nonlinear_system::NonlinearQSRSystem;
use phsim::scalar::Scalar;
use phsim::simulation::{energy_sequence, uniform_grid};
use phsim::time_discretization::{
    implicit_midpoint, qsr_discrete_gradient, IntegrationError, SolverParams,
};
use phsim::vector::Vector;

/// The concrete scalar the library is exercised with.
#[derive(Clone, Copy, Debug, PartialEq)]
struct F(f64);

impl Scalar for F {
    fn zero() -> F {
        F(0.0)
    }
    fn one() -> F {
        F(1.0)
    }
    fn from_usize(n: usize) -> F {
        F(n as f64)
    }
    fn add(self, other: F) -> F {
        F(self.0 + other.0)
    }
    fn sub(self, other: F) -> F {
        F(self.0 - other.0)
    }
    fn mul(self, other: F) -> F {
        F(self.0 * other.0)
    }
    fn div(self, other: F) -> F {
        F(self.0 / other.0)
    }
    fn abs(self) -> F {
        F(self.0.abs())
    }
    fn sqrt(self) -> F {
        F(self.0.sqrt())
    }
    fn lt(self, other: F) -> bool {
        self.0 < other.0
    }
}

fn vecf(entries: &[f64]) -> Vector<F> {
    Vector::from_elems(entries.iter().map(|&v| F(v)).collect())
}

fn to_f64s(v: &Vector<F>) -> Vec<f64> {
    (0..v.dim()).map(|i| v.get(i).0).collect()
}

fn matf(cols: usize, rows: &[&[f64]]) -> Matrix<F> {
    let rows: Vec<Vector<F>> = rows.iter().map(|r| vecf(r)).collect();
    Matrix::from_rows(cols, rows)
}

fn params() -> SolverParams<F> {
    SolverParams { max_iter: 1000, tol: F(1e-14), update_guard: F(1e-16) }
}

fn guard() -> F {
    F(1e-14)
}

/// Damped pendulum with gravitational potential: 2 states, 1 control.
struct Pendulum {
    gravitation: f64,
    friction: f64,
}

impl NonlinearQSRSystem<F> for Pendulum {
    fn state_dim(&self) -> usize {
        2
    }
    fn control_dim(&self) -> usize {
        1
    }
    fn hamiltonian(&self, z: &Vector<F>) -> F {
        let z = to_f64s(z);
        F(self.gravitation * (1.0 - z[0].cos()) + 0.5 * z[1] * z[1])
    }
    fn eta(&self, z: &Vector<F>) -> Vector<F> {
        let z = to_f64s(z);
        vecf(&[self.gravitation * z[0].sin(), z[1]])
    }
    fn h(&self, z: &Vector<F>) -> Vector<F> {
        self.eta(z)
    }
    fn ham_eta(&self, z: &Vector<F>) -> (F, Vector<F>) {
        (self.hamiltonian(z), self.eta(z))
    }
    fn f(&self, z: &Vector<F>) -> Vector<F> {
        let eta = to_f64s(&self.eta(z));
        vecf(&[eta[1], -eta[0] - self.friction * eta[1]])
    }
    fn g(&self, _z: &Vector<F>) -> Matrix<F> {
        matf(1, &[&[0.0], &[1.0]])
    }
    fn dynamics(&self, z: &Vector<F>, u: &Vector<F>) -> Vector<F> {
        let f = to_f64s(&self.f(z));
        let u = to_f64s(u);
        vecf(&[f[0], f[1] + u[0]])
    }
    fn k(&self, _z: &Vector<F>) -> Matrix<F> {
        matf(1, &[&[0.0]])
    }
    fn qsr(&self) -> (Matrix<F>, Matrix<F>, Matrix<F>) {
        (
            matf(1, &[&[-self.friction]]),
            matf(1, &[&[0.5]]),
            matf(1, &[&[0.0]]),
        )
    }
    fn ell(&self, _z: &Vector<F>) -> Vector<F> {
        vecf(&[0.0])
    }
    fn w(&self, _z: &Vector<F>) -> Matrix<F> {
        matf(1, &[&[0.0]])
    }
    fn initial_state(&self) -> Vector<F> {
        vecf(&[std::f64::consts::PI / 4.0, -1.0])
    }
}

/// Toda lattice: `2n` states with exponential nearest-neighbor coupling and
/// one damped, driven coordinate.
struct Toda {
    n: usize,
    gamma: f64,
}

impl Toda {
    fn grad(&self, z: &[f64]) -> Vec<f64> {
        let n = self.n;
        let q = &z[0..n];
        let p = &z[n..2 * n];
        let mut grad_q = vec![0.0; n];
        if n > 1 {
            let exp_wrap = (q[n - 1] - q[0]).exp();
            grad_q[0] = (q[0] - q[1]).exp() - exp_wrap;
            for i in 1..(n - 1) {
                grad_q[i] = (q[i] - q[i + 1]).exp() - (q[i - 1] - q[i]).exp();
            }
            grad_q[n - 1] = exp_wrap - (q[n - 2] - q[n - 1]).exp();
        }
        grad_q.extend_from_slice(p);
        grad_q
    }
}

impl NonlinearQSRSystem<F> for Toda {
    fn state_dim(&self) -> usize {
        2 * self.n
    }
    fn control_dim(&self) -> usize {
        1
    }
    fn hamiltonian(&self, z: &Vector<F>) -> F {
        let z = to_f64s(z);
        let n = self.n;
        let q = &z[0..n];
        let p = &z[n..2 * n];
        let kinetic = 0.5 * p.iter().map(|v| v * v).sum::<f64>();
        let mut potential = 0.0;
        for i in 0..(n - 1) {
            potential += (q[i] - q[i + 1]).exp();
        }
        potential += (q[n - 1] - q[0]).exp();
        F(kinetic + potential - n as f64)
    }
    fn eta(&self, z: &Vector<F>) -> Vector<F> {
        vecf(&self.grad(&to_f64s(z)))
    }
    fn h(&self, z: &Vector<F>) -> Vector<F> {
        self.eta(z)
    }
    fn ham_eta(&self, z: &Vector<F>) -> (F, Vector<F>) {
        (self.hamiltonian(z), self.eta(z))
    }
    fn f(&self, z: &Vector<F>) -> Vector<F> {
        // (J - R) * eta with J the canonical symplectic pairing and R the
        // damping gamma on the momentum block.
        let eta = self.grad(&to_f64s(z));
        let n = self.n;
        let mut out = vec![0.0; 2 * n];
        for i in 0..n {
            out[i] = eta[n + i];
            out[n + i] = -eta[i] - self.gamma * eta[n + i];
        }
        vecf(&out)
    }
    fn g(&self, _z: &Vector<F>) -> Matrix<F> {
        let mut rows: Vec<Vector<F>> = Vec::new();
        for i in 0..2 * self.n {
            rows.push(vecf(&[if i == self.n { 1.0 } else { 0.0 }]));
        }
        Matrix::from_rows(1, rows)
    }
    fn dynamics(&self, z: &Vector<F>, u: &Vector<F>) -> Vector<F> {
        let f = to_f64s(&self.f(z));
        let u = to_f64s(u);
        let mut out = f;
        out[self.n] += u[0];
        vecf(&out)
    }
    fn k(&self, _z: &Vector<F>) -> Matrix<F> {
        matf(1, &[&[0.0]])
    }
    fn qsr(&self) -> (Matrix<F>, Matrix<F>, Matrix<F>) {
        (matf(1, &[&[0.0]]), matf(1, &[&[0.5]]), matf(1, &[&[0.0]]))
    }
    fn ell(&self, z: &Vector<F>) -> Vector<F> {
        let eta = self.grad(&to_f64s(z));
        let scaled: Vec<f64> =
            eta[self.n..2 * self.n].iter().map(|v| v * self.gamma.sqrt()).collect();
        vecf(&scaled)
    }
    fn w(&self, _z: &Vector<F>) -> Matrix<F> {
        let rows: Vec<Vector<F>> = (0..self.n).map(|_| vecf(&[0.0])).collect();
        Matrix::from_rows(1, rows)
    }
    fn initial_state(&self) -> Vector<F> {
        let mut z: Vec<f64> = (0..self.n).map(|i| i as f64).collect();
        z.extend((0..self.n).map(|_| 0.0));
        vecf(&z)
    }
}

/// Linear scalar decay `z' = -z`, for an exact one-step midpoint value.
struct Decay;

impl NonlinearQSRSystem<F> for Decay {
    fn state_dim(&self) -> usize {
        1
    }
    fn control_dim(&self) -> usize {
        1
    }
    fn hamiltonian(&self, z: &Vector<F>) -> F {
        F(0.5 * z.get(0).0 * z.get(0).0)
    }
    fn eta(&self, z: &Vector<F>) -> Vector<F> {
        vecf(&[z.get(0).0])
    }
    fn h(&self, z: &Vector<F>) -> Vector<F> {
        self.eta(z)
    }
    fn ham_eta(&self, z: &Vector<F>) -> (F, Vector<F>) {
        (self.hamiltonian(z), self.eta(z))
    }
    fn f(&self, z: &Vector<F>) -> Vector<F> {
        vecf(&[-z.get(0).0])
    }
    fn g(&self, _z: &Vector<F>) -> Matrix<F> {
        matf(1, &[&[0.0]])
    }
    fn dynamics(&self, z: &Vector<F>, _u: &Vector<F>) -> Vector<F> {
        vecf(&[-z.get(0).0])
    }
    fn k(&self, _z: &Vector<F>) -> Matrix<F> {
        matf(1, &[&[0.0]])
    }
    fn qsr(&self) -> (Matrix<F>, Matrix<F>, Matrix<F>) {
        (matf(1, &[&[0.0]]), matf(1, &[&[0.5]]), matf(1, &[&[0.0]]))
    }
    fn ell(&self, _z: &Vector<F>) -> Vector<F> {
        vecf(&[0.0])
    }
    fn w(&self, _z: &Vector<F>) -> Matrix<F> {
        matf(1, &[&[0.0]])
    }
    fn initial_state(&self) -> Vector<F> {
        vecf(&[1.0])
    }
}

/// A system whose supply-rate matrices make the auxiliary solve singular.
struct SingularSupply;

impl NonlinearQSRSystem<F> for SingularSupply {
    fn state_dim(&self) -> usize {
        1
    }
    fn control_dim(&self) -> usize {
        1
    }
    fn hamiltonian(&self, z: &Vector<F>) -> F {
        F(0.5 * z.get(0).0 * z.get(0).0)
    }
    fn eta(&self, z: &Vector<F>) -> Vector<F> {
        vecf(&[z.get(0).0])
    }
    fn h(&self, z: &Vector<F>) -> Vector<F> {
        self.eta(z)
    }
    fn ham_eta(&self, z: &Vector<F>) -> (F, Vector<F>) {
        (self.hamiltonian(z), self.eta(z))
    }
    fn f(&self, z: &Vector<F>) -> Vector<F> {
        vecf(&[-z.get(0).0])
    }
    fn g(&self, _z: &Vector<F>) -> Matrix<F> {
        matf(1, &[&[0.0]])
    }
    fn dynamics(&self, z: &Vector<F>, _u: &Vector<F>) -> Vector<F> {
        vecf(&[-z.get(0).0])
    }
    fn k(&self, _z: &Vector<F>) -> Matrix<F> {
        matf(1, &[&[0.0]])
    }
    fn qsr(&self) -> (Matrix<F>, Matrix<F>, Matrix<F>) {
        (matf(1, &[&[0.0]]), matf(1, &[&[0.0]]), matf(1, &[&[0.0]]))
    }
    fn ell(&self, _z: &Vector<F>) -> Vector<F> {
        vecf(&[0.0])
    }
    fn w(&self, _z: &Vector<F>) -> Matrix<F> {
        matf(1, &[&[0.0]])
    }
    fn initial_state(&self) -> Vector<F> {
        vecf(&[1.0])
    }
}

struct LinearResidual {
    b: Vec<f64>,
}

impl Residual<F> for LinearResidual {
    fn eval(&self, x: &Vector<F>) -> Option<Vector<F>> {
        let x = to_f64s(x);
        let r: Vec<f64> = x.iter().zip(self.b.iter()).map(|(x, b)| 3.0 * x - b).collect();
        Some(vecf(&r))
    }
}

fn energies(system: &impl NonlinearQSRSystem<F>, zz: &Vec<Vector<F>>) -> Vec<f64> {
    energy_sequence(system, zz).iter().map(|h| h.0).collect()
}

fn run_qsr(
    system: &impl NonlinearQSRSystem<F>,
    z0: &Vector<F>,
    dt: f64,
    nt: usize,
) -> Vec<Vector<F>> {
    let tt = uniform_grid(nt, F(dt));
    let uu: Matrix<F> = Matrix::zeros(nt, 1);
    qsr_discrete_gradient(system, &tt, z0, &uu, &params(), guard()).unwrap()
}

fn run_midpoint(
    system: &impl NonlinearQSRSystem<F>,
    z0: &Vector<F>,
    dt: f64,
    nt: usize,
) -> Vec<Vector<F>> {
    let tt = uniform_grid(nt, F(dt));
    let uu: Matrix<F> = Matrix::zeros(nt, 1);
    implicit_midpoint(system, &tt, z0, &uu, &params()).unwrap()
}

fn max_drift(h: &[f64]) -> f64 {
    h.iter().map(|v| (v - h[0]).abs()).fold(0.0, f64::max)
}

#[test]
fn trajectory_shape_and_initial_row() {
    let system = Pendulum { gravitation: 9.81, friction: 0.2 };
    let z0 = system.initial_state();
    for zz in [
        run_midpoint(&system, &z0, 0.1, 30),
        run_qsr(&system, &z0, 0.1, 30),
    ] {
        assert_eq!(zz.len(), 30);
        for row in &zz {
            assert_eq!(row.dim(), 2);
        }
        assert_eq!(zz[0].get(0).0, z0.get(0).0);
        assert_eq!(zz[0].get(1).0, z0.get(1).0);
    }
}

#[test]
fn discrete_gradient_identity_per_step() {
    let system = Pendulum { gravitation: 9.81, friction: 0.2 };
    let z0 = system.initial_state();
    let zz = run_qsr(&system, &z0, 0.1, 50);
    for step in zz.windows(2) {
        let zi = to_f64s(&step[0]);
        let zn = to_f64s(&step[1]);
        let zmid = vecf(&[(zi[0] + zn[0]) * 0.5, (zi[1] + zn[1]) * 0.5]);
        let eta_mid = to_f64s(&system.eta(&zmid));
        let diff = [zn[0] - zi[0], zn[1] - zi[1]];
        let dh = system.hamiltonian(&step[1]).0 - system.hamiltonian(&step[0]).0;
        let alpha1 = dh - (eta_mid[0] * diff[0] + eta_mid[1] * diff[1]);
        let alpha2 = diff[0] * diff[0] + diff[1] * diff[1];
        let eta_bar = if alpha2.abs() < 1e-14 {
            eta_mid
        } else {
            vec![
                eta_mid[0] + alpha1 / alpha2 * diff[0],
                eta_mid[1] + alpha1 / alpha2 * diff[1],
            ]
        };
        let along = eta_bar[0] * diff[0] + eta_bar[1] * diff[1];
        assert!((dh - along).abs() <= 1e-12, "identity violated: {}", dh - along);
    }
}

#[test]
fn lossless_pendulum_conserves_energy() {
    let system = Pendulum { gravitation: 9.81, friction: 0.0 };
    let z0 = system.initial_state();
    for dt in [0.5, 0.05, 0.005] {
        let nt = (10.0 / dt) as usize;
        let zz = run_qsr(&system, &z0, dt, nt);
        let h = energies(&system, &zz);
        assert!(max_drift(&h) <= 1e-10, "drift {} at dt {}", max_drift(&h), dt);
    }
}

#[test]
fn midpoint_energy_drift_grows_with_dt() {
    let system = Pendulum { gravitation: 9.81, friction: 0.0 };
    let z0 = system.initial_state();
    let drifts: Vec<f64> = [0.5, 0.05, 0.005]
        .iter()
        .map(|&dt| {
            let nt = (10.0 / dt) as usize;
            let zz = run_midpoint(&system, &z0, dt, nt);
            max_drift(&energies(&system, &zz))
        })
        .collect();
    assert!(drifts[0] > drifts[1] && drifts[1] > drifts[2], "drifts {:?}", drifts);
    // Even at the finest step the plain scheme drifts far more than the
    // discrete-gradient scheme's conservation bound.
    assert!(drifts[2] > 1e-10);
}

#[test]
fn dissipative_pendulum_energy_decreases() {
    let system = Pendulum { gravitation: 9.81, friction: 0.2 };
    let z0 = system.initial_state();
    for dt in [0.5, 0.05] {
        let nt = (10.0 / dt) as usize;
        let zz = run_qsr(&system, &z0, dt, nt);
        let h = energies(&system, &zz);
        for step in h.windows(2) {
            assert!(step[1] <= step[0] + 1e-12, "energy rose: {} -> {}", step[0], step[1]);
        }
    }
}

#[test]
fn toda_conserves_energy_without_damping() {
    let system = Toda { n: 5, gamma: 0.0 };
    let z0 = system.initial_state();
    for (dt, nt) in [(0.05, 200), (0.005, 400), (0.0005, 400)] {
        let zz = run_qsr(&system, &z0, dt, nt);
        let h = energies(&system, &zz);
        assert!(max_drift(&h) <= 1e-10, "drift {} at dt {}", max_drift(&h), dt);
    }
}

#[test]
fn toda_energy_decreases_with_damping() {
    let system = Toda { n: 5, gamma: 0.1 };
    let z0 = system.initial_state();
    let zz = run_qsr(&system, &z0, 0.05, 200);
    let h = energies(&system, &zz);
    for step in h.windows(2) {
        assert!(step[1] <= step[0] + 1e-12, "energy rose: {} -> {}", step[0], step[1]);
    }
}

#[test]
fn broyden_converges_on_linear_residual() {
    let residual = LinearResidual { b: vec![3.0, 6.0] };
    let out = broyden(&residual, &vecf(&[0.0, 0.0]), 50, F(1e-10), F(1e-16));
    assert!(matches!(out.status, SolveStatus::Converged));
    let x = to_f64s(&out.x);
    assert!((x[0] - 1.0).abs() < 1e-9 && (x[1] - 2.0).abs() < 1e-9, "x {:?}", x);
    assert!(out.iterations <= 9, "iterations {}", out.iterations);
    assert!(out.residual_norm.unwrap().0 < 1e-10);
}

#[test]
fn broyden_returns_seed_when_converged() {
    let residual = LinearResidual { b: vec![3.0, 6.0] };
    let out = broyden(&residual, &vecf(&[1.0, 2.0]), 50, F(1e-10), F(1e-16));
    assert!(matches!(out.status, SolveStatus::Converged));
    assert_eq!(out.iterations, 0);
    assert_eq!(to_f64s(&out.x), vec![1.0, 2.0]);
}

#[test]
fn broyden_reports_iteration_limit() {
    let residual = LinearResidual { b: vec![3.0, 6.0] };
    let out = broyden(&residual, &vecf(&[0.0, 0.0]), 1, F(1e-10), F(1e-16));
    assert!(matches!(out.status, SolveStatus::IterationLimit));
    assert_eq!(out.iterations, 1);
}

/// A constant residual: the first secant update turns the identity into a
/// projector along the step, so the next linear solve is singular.
struct ConstantResidual;

impl Residual<F> for ConstantResidual {
    fn eval(&self, _x: &Vector<F>) -> Option<Vector<F>> {
        Some(vecf(&[1.0, 1.0]))
    }
}

#[test]
fn broyden_reports_singular_jacobian() {
    let out = broyden(&ConstantResidual, &vecf(&[0.0, 0.0]), 50, F(1e-10), F(1e-16));
    assert!(matches!(out.status, SolveStatus::SingularJacobian));
    assert_eq!(out.iterations, 1);
}

/// A residual that is nowhere defined stops the solver at once, with the
/// seed untouched.
struct UndefinedResidual;

impl Residual<F> for UndefinedResidual {
    fn eval(&self, _x: &Vector<F>) -> Option<Vector<F>> {
        None
    }
}

#[test]
fn broyden_reports_undefined_residual() {
    let out = broyden(&UndefinedResidual, &vecf(&[4.0, 5.0]), 50, F(1e-10), F(1e-16));
    assert!(matches!(out.status, SolveStatus::ResidualUndefined));
    assert_eq!(out.iterations, 0);
    assert_eq!(to_f64s(&out.x), vec![4.0, 5.0]);
    assert!(out.residual_norm.is_none());
}

#[test]
fn grid_too_short_is_refused() {
    let system = Pendulum { gravitation: 9.81, friction: 0.2 };
    let z0 = system.initial_state();
    let tt = uniform_grid(1, F(0.1));
    let uu: Matrix<F> = Matrix::zeros(1, 1);
    let r = implicit_midpoint(&system, &tt, &z0, &uu, &params());
    assert!(matches!(r, Err(IntegrationError::GridTooShort)));
    let r = qsr_discrete_gradient(&system, &tt, &z0, &uu, &params(), guard());
    assert!(matches!(r, Err(IntegrationError::GridTooShort)));
}

#[test]
fn control_shape_mismatch_is_refused() {
    let system = Pendulum { gravitation: 9.81, friction: 0.2 };
    let z0 = system.initial_state();
    let tt = uniform_grid(10, F(0.1));
    let uu: Matrix<F> = Matrix::zeros(9, 1);
    let r = implicit_midpoint(&system, &tt, &z0, &uu, &params());
    assert!(matches!(r, Err(IntegrationError::ControlShapeMismatch)));
    let r = qsr_discrete_gradient(&system, &tt, &z0, &uu, &params(), guard());
    assert!(matches!(r, Err(IntegrationError::ControlShapeMismatch)));
}

#[test]
fn system_dimension_mismatch_is_refused() {
    let system = Pendulum { gravitation: 9.81, friction: 0.2 };
    let z0 = vecf(&[0.1, 0.2, 0.3]);
    let tt = uniform_grid(10, F(0.1));
    let uu: Matrix<F> = Matrix::zeros(10, 1);
    let r = implicit_midpoint(&system, &tt, &z0, &uu, &params());
    assert!(matches!(r, Err(IntegrationError::SystemDimensionMismatch)));
    let r = qsr_discrete_gradient(&system, &tt, &z0, &uu, &params(), guard());
    assert!(matches!(r, Err(IntegrationError::SystemDimensionMismatch)));
}

#[test]
fn stage_undefined_on_singular_supply_rate() {
    let system = SingularSupply;
    let z0 = system.initial_state();
    let tt = uniform_grid(5, F(0.1));
    let uu: Matrix<F> = Matrix::zeros(5, 1);
    let r = qsr_discrete_gradient(&system, &tt, &z0, &uu, &params(), guard());
    assert!(matches!(r, Err(IntegrationError::StageUndefined)));
}

#[test]
fn implicit_midpoint_matches_exact_stage_on_linear_decay() {
    let system = Decay;
    let z0 = system.initial_state();
    let dt = 0.1;
    let zz = run_midpoint(&system, &z0, dt, 2);
    // The stage equation is linear: z1 (1 + dt/2) = z0 (1 - dt/2).
    let expected = 1.0 * (1.0 - dt / 2.0) / (1.0 + dt / 2.0);
    assert!((zz[1].get(0).0 - expected).abs() < 1e-12);
}

#[test]
fn solve_linear_exact_and_singular() {
    let a = matf(2, &[&[2.0, 1.0], &[1.0, 3.0]]);
    let b = vecf(&[5.0, 10.0]);
    let x = to_f64s(&solve_linear(&a, &b).unwrap());
    assert!((x[0] - 1.0).abs() < 1e-12 && (x[1] - 3.0).abs() < 1e-12);
    let singular = matf(2, &[&[1.0, 2.0], &[2.0, 4.0]]);
    assert!(solve_linear(&singular, &b).is_none());
}

#[test]
fn matrix_products_exact_values() {
    let a = matf(2, &[&[1.0, 2.0], &[3.0, 4.0]]);
    let x = vecf(&[5.0, 6.0]);
    assert_eq!(to_f64s(&a.matvec(&x)), vec![17.0, 39.0]);
    let b = matf(1, &[&[5.0], &[6.0]]);
    let ab = a.matmul(&b);
    assert_eq!(ab.nrows(), 2);
    assert_eq!(ab.ncols(), 1);
    assert_eq!(ab.get(0, 0).0, 17.0);
    assert_eq!(ab.get(1, 0).0, 39.0);
    let at = a.transpose();
    assert_eq!(at.get(0, 1).0, 3.0);
    let outer = Matrix::outer(&vecf(&[1.0, 2.0]), &vecf(&[3.0, 4.0]));
    assert_eq!(outer.get(1, 0).0, 6.0);
    assert_eq!(outer.get(0, 1).0, 4.0);
}

#[test]
fn vector_ops_exact_values() {
    let a = vecf(&[1.0, 2.0]);
    let b = vecf(&[3.0, 5.0]);
    assert_eq!(to_f64s(&a.add(&b)), vec![4.0, 7.0]);
    assert_eq!(to_f64s(&b.sub(&a)), vec![2.0, 3.0]);
    assert_eq!(to_f64s(&a.scale(F(2.0))), vec![2.0, 4.0]);
    assert_eq!(to_f64s(&b.scale_div(F(2.0))), vec![1.5, 2.5]);
    assert_eq!(a.dot(&b).0, 13.0);
    assert_eq!(vecf(&[3.0, 4.0]).norm().0, 5.0);
    assert_eq!(to_f64s(&a.duplicate()), vec![1.0, 2.0]);
}

#[test]
fn uniform_grid_and_energy_sequence() {
    let tt = uniform_grid(4, F(0.5));
    assert_eq!(to_f64s(&tt), vec![0.0, 0.5, 1.0, 1.5]);
    let system = Pendulum { gravitation: 9.81, friction: 0.0 };
    let states = vec![vecf(&[0.0, 1.0]), vecf(&[0.0, 2.0])];
    let h = energy_sequence(&system, &states);
    assert_eq!(h.len(), 2);
    assert_eq!(h[0].0, 0.5);
    assert_eq!(h[1].0, 2.0);
}
