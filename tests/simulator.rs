use qubit_sim::gate::{Gate, Scalars};
use qubit_sim::matrix::{Matrix, MatrixError};
use qubit_sim::qubit::{Ket, Qubit};
use qubit_sim::system::{ControlKind, StateEntry, System};

#[derive(Clone, Copy, Debug, PartialEq)]
struct C {
    a: f32,
    b: f32,
}

fn c(a: f32, b: f32) -> C {
    C { a, b }
}

fn mul(x: C, y: C) -> C {
    c(x.a * y.a - x.b * y.b, x.b * y.a + x.a * y.b)
}

fn add(x: C, y: C) -> C {
    c(x.a + y.a, x.b + y.b)
}

fn sub(x: C, y: C) -> C {
    c(x.a - y.a, x.b - y.b)
}

fn neg(x: C) -> C {
    c(-x.a, -x.b)
}

fn conj(x: C) -> C {
    c(x.a, -x.b)
}

fn is_zero(x: C) -> bool {
    x.a == 0.0 && x.b == 0.0
}

fn div(x: C, y: C) -> C {
    let d = y.a * y.a + y.b * y.b;
    c((x.a * y.a + x.b * y.b) / d, (x.b * y.a - x.a * y.b) / d)
}

fn scalars() -> Scalars<C> {
    let h = std::f32::consts::FRAC_1_SQRT_2;
    Scalars {
        zero: c(0.0, 0.0),
        one: c(1.0, 0.0),
        neg_one: c(-1.0, 0.0),
        i: c(0.0, 1.0),
        neg_i: c(0.0, -1.0),
        inv_sqrt2: c(h, 0.0),
        neg_inv_sqrt2: c(-h, 0.0),
        i_inv_sqrt2: c(0.0, h),
        neg_i_inv_sqrt2: c(0.0, -h),
        eighth_turn: c(h, h),
    }
}

fn re(x: f32) -> C {
    c(x, 0.0)
}

fn from_reals(rows: &[&[f32]]) -> Matrix<C> {
    let value: Vec<Vec<C>> = rows.iter().map(|r| r.iter().map(|x| re(*x)).collect()).collect();
    Matrix::new(value).unwrap()
}

fn cells(m: &Matrix<C>) -> Vec<Vec<C>> {
    (0..m.rows).map(|r| (0..m.cols).map(|k| m.get(r, k)).collect()).collect()
}

fn close(x: C, y: C) -> bool {
    (x.a - y.a).abs() < 1e-5 && (x.b - y.b).abs() < 1e-5
}

fn matrices_close(m: &Matrix<C>, n: &Matrix<C>) -> bool {
    m.rows == n.rows
        && m.cols == n.cols
        && (0..m.rows).all(|r| (0..m.cols).all(|k| close(m.get(r, k), n.get(r, k))))
}

fn column_of(e: &StateEntry<C>) -> Vec<C> {
    match e {
        StateEntry::StandardQubit(q) => cells(&q.state).into_iter().map(|r| r[0]).collect(),
        StateEntry::EntangledState(m) => cells(m).into_iter().map(|r| r[0]).collect(),
        StateEntry::EntangledStatePtr(_) => Vec::new(),
    }
}

fn probability(x: C) -> f32 {
    x.a * x.a + x.b * x.b
}

fn blend_weights(beta: C) -> (C, C) {
    let p = probability(beta);
    (re((1.0 - p).sqrt()), re(p.sqrt()))
}

#[test]
fn new_rejects_empty_and_ragged_literals() {
    let empty: Vec<Vec<C>> = Vec::new();
    assert_eq!(Matrix::new(empty).err(), Some(MatrixError::Empty));
    let ragged = vec![vec![re(1.0), re(2.0)], vec![re(3.0)]];
    assert_eq!(Matrix::new(ragged).err(), Some(MatrixError::Ragged));
    let m = Matrix::new(vec![vec![re(1.0), re(2.0), re(3.0)]]).unwrap();
    assert_eq!((m.rows, m.cols), (1, 3));
}

#[test]
fn from_dimensions_is_zero_filled() {
    let m = Matrix::from_dimensions(2, 3, re(0.0));
    assert_eq!((m.rows, m.cols), (2, 3));
    assert!(cells(&m).iter().all(|r| r.iter().all(|x| *x == re(0.0))));
}

#[test]
fn set_changes_one_cell() {
    let mut m = Matrix::from_dimensions(2, 2, re(0.0));
    m.set(1, 0, re(7.0));
    assert_eq!(cells(&m), vec![vec![re(0.0), re(0.0)], vec![re(7.0), re(0.0)]]);
}

#[test]
fn product_of_complex_matrices() {
    let a = Matrix::new(vec![vec![c(3.0, 1.0), c(2.0, 1.0)], vec![c(4.0, 3.0), c(1.0, 2.0)]]).unwrap();
    let b = Matrix::new(vec![vec![c(8.0, 4.0), c(2.0, 1.0)], vec![c(8.0, 4.0), c(2.0, 1.0)]]).unwrap();
    let p = a.product(&b, &mul, &add);
    assert_eq!(
        cells(&p),
        vec![vec![c(32.0, 36.0), c(8.0, 9.0)], vec![c(20.0, 60.0), c(5.0, 15.0)]]
    );
}

#[test]
fn product_of_row_and_column_is_one_cell() {
    let row = from_reals(&[&[1.0, 2.0, 3.0]]);
    let col = from_reals(&[&[4.0], &[5.0], &[6.0]]);
    let p = row.product(&col, &mul, &add);
    assert_eq!(cells(&p), vec![vec![re(32.0)]]);
}

#[test]
fn identity_is_a_unit_of_the_product() {
    let s = scalars();
    let m = Matrix::new(vec![vec![c(1.0, 2.0), c(3.0, -1.0)], vec![c(0.5, 0.0), c(-2.0, 4.0)]]).unwrap();
    let id = Matrix::IDENTITY(s.zero, s.one);
    assert_eq!(cells(&id.product(&m, &mul, &add)), cells(&m));
    assert_eq!(cells(&m.product(&id, &mul, &add)), cells(&m));
}

#[test]
fn tensor_product_follows_the_kronecker_rule() {
    let a = from_reals(&[&[1.0, 2.0], &[3.0, 4.0]]);
    let b = from_reals(&[&[0.0, 5.0], &[6.0, 7.0]]);
    let t = a.tensor_product(&b, &mul);
    assert_eq!((t.rows, t.cols), (4, 4));
    let want = from_reals(&[
        &[0.0, 5.0, 0.0, 10.0],
        &[6.0, 7.0, 12.0, 14.0],
        &[0.0, 15.0, 0.0, 20.0],
        &[18.0, 21.0, 24.0, 28.0],
    ]);
    assert_eq!(cells(&t), cells(&want));
}

#[test]
fn tensor_product_of_rectangular_matrices() {
    let a = from_reals(&[&[1.0, 2.0]]);
    let b = from_reals(&[&[3.0], &[4.0], &[5.0]]);
    let t = a.tensor_product(&b, &mul);
    assert_eq!((t.rows, t.cols), (3, 2));
    assert_eq!(cells(&t), cells(&from_reals(&[&[3.0, 6.0], &[4.0, 8.0], &[5.0, 10.0]])));
}

#[test]
fn inverse_tensor_product_recovers_the_other_factor() {
    let a = Matrix::new(vec![vec![c(1.0, 1.0), c(0.0, 0.0)], vec![c(2.0, 0.0), c(0.0, 0.0)]]).unwrap();
    let b = Matrix::new(vec![vec![c(3.0, 0.0), c(0.0, 2.0), c(1.0, 0.0)]]).unwrap();
    let t = a.tensor_product(&b, &mul);
    let r = t.inverse_tensor_product(&a, &div, &is_zero).unwrap();
    assert_eq!((r.rows, r.cols), (b.rows, b.cols));
    assert!(matrices_close(&r, &b));
}

#[test]
fn inverse_tensor_product_rejects_a_zero_factor() {
    let a = from_reals(&[&[0.0, 0.0]]);
    let t = from_reals(&[&[1.0, 2.0, 3.0, 4.0]]);
    assert_eq!(t.inverse_tensor_product(&a, &div, &is_zero).err(), Some(MatrixError::ZeroFactor));
}

#[test]
fn inverse_tensor_product_divides_by_the_last_nonzero_cell() {
    let base = from_reals(&[&[1.0, 2.0]]);
    let joint = from_reals(&[&[10.0, 20.0, 30.0, 40.0]]);
    let r = joint.inverse_tensor_product(&base, &div, &is_zero).unwrap();
    assert_eq!(cells(&r), vec![vec![re(15.0), re(20.0)]]);
}

#[test]
fn transpose_exchanges_rows_and_columns() {
    let mut m = from_reals(&[&[1.0, 2.0], &[3.0, 4.0], &[5.0, 6.0]]);
    m.transpose();
    assert_eq!((m.rows, m.cols), (2, 3));
    assert_eq!(cells(&m), cells(&from_reals(&[&[1.0, 3.0, 5.0], &[2.0, 4.0, 6.0]])));
}

#[test]
fn conjugate_negates_imaginary_parts() {
    let mut m = Matrix::new(vec![vec![c(1.0, 1.0), c(0.0, -1.0)]]).unwrap();
    m.conjugate(&conj);
    assert_eq!(cells(&m), vec![vec![c(1.0, -1.0), c(0.0, 1.0)]]);
}

#[test]
fn adjoint_twice_gives_back_the_matrix() {
    let m = Matrix::new(vec![
        vec![c(1.0, 1.0), c(0.0, 1.0)],
        vec![c(1.0, -2.0), c(0.0, 1.0)],
        vec![c(0.0, 1.0), c(1.0, 0.0)],
    ])
    .unwrap();
    let mut a = m.copy();
    a.adjunct(&conj);
    assert_eq!((a.rows, a.cols), (2, 3));
    assert_eq!(a.get(0, 1), c(1.0, 2.0));
    a.adjunct(&conj);
    assert_eq!(cells(&a), cells(&m));
}

#[test]
fn scalar_and_elementwise_operations() {
    let m = from_reals(&[&[1.0, 2.0], &[3.0, 4.0]]);
    let doubled = m.scalar_op(re(2.0), &mul);
    assert_eq!(cells(&doubled), cells(&from_reals(&[&[2.0, 4.0], &[6.0, 8.0]])));
    let shifted = m.scalar_op(c(0.0, 1.0), &add);
    assert_eq!(shifted.get(1, 0), c(3.0, 1.0));
    let halved = m.scalar_op(re(2.0), &div);
    assert_eq!(halved.get(0, 0), re(0.5));
    let sum = m.elementwise(&doubled, &add);
    assert_eq!(cells(&sum), cells(&from_reals(&[&[3.0, 6.0], &[9.0, 12.0]])));
    let diff = doubled.elementwise(&m, &sub);
    assert_eq!(cells(&diff), cells(&m));
}

#[test]
fn determinant_of_two_by_two() {
    let m = Matrix::new(vec![vec![c(1.0, 1.0), c(0.0, 1.0)], vec![c(0.0, 1.0), c(1.0, 0.0)]]).unwrap();
    assert_eq!(m.determinant(&mul, &sub), c(2.0, 1.0));
}

#[test]
fn invert_uses_the_adjugate_over_the_determinant() {
    let mut m = from_reals(&[&[4.0, 7.0], &[2.0, 6.0]]);
    assert_eq!(m.invert(&mul, &sub, &neg, &div, &is_zero), Ok(()));
    let want = from_reals(&[&[0.6, -0.7], &[-0.2, 0.4]]);
    assert!(matrices_close(&m, &want));
}

#[test]
fn invert_rejects_a_singular_matrix() {
    let mut m = from_reals(&[&[1.0, 2.0], &[2.0, 4.0]]);
    assert_eq!(m.invert(&mul, &sub, &neg, &div, &is_zero), Err(MatrixError::Singular));
    assert_eq!(cells(&m), cells(&from_reals(&[&[1.0, 2.0], &[2.0, 4.0]])));
}

#[test]
fn inner_and_outer_products() {
    let x = Matrix::new(vec![vec![c(3.0, 1.0)], vec![c(4.0, 3.0)]]).unwrap();
    let y = Matrix::new(vec![vec![c(8.0, 4.0)], vec![c(8.0, 4.0)]]).unwrap();
    assert_eq!(x.inner_product(&y, &conj, &mul, &add), c(72.0, -4.0));
    let o = x.outer_product(&y, &conj, &mul, &add);
    assert_eq!((o.rows, o.cols), (2, 2));
    assert_eq!(o.get(0, 0), c(28.0, -4.0));
    assert_eq!(o.get(1, 1), c(44.0, 8.0));
}

#[test]
fn every_named_gate_is_unitary() {
    let s = scalars();
    let id = Gate::I(&s);
    let t = 0.7f32;
    let e = |x: f32| c(x.cos(), x.sin());
    let gates = vec![
        Gate::I(&s),
        Gate::X(&s),
        Gate::Y(&s),
        Gate::Z(&s),
        Gate::H(&s),
        Gate::S(&s),
        Gate::T(&s),
        Gate::R_x(re((t / 2.0).cos()), c(0.0, -(t / 2.0).sin())),
        Gate::R_y(re((t / 2.0).cos()), re((t / 2.0).sin()), re(-(t / 2.0).sin())),
        Gate::R_z(s.zero, e(-t / 2.0), e(t / 2.0)),
        Gate::R_1(s.zero, s.one, e(t)),
    ];
    for g in gates {
        let mut a = g.copy();
        a.adjunct(&conj);
        assert!(matrices_close(&g.product(&a, &mul, &add), &id));
    }
}

#[test]
fn kets_by_name() {
    assert_eq!(Ket::from_name("ZERO"), Some(Ket::Zero));
    assert_eq!(Ket::from_name("ONE"), Some(Ket::One));
    assert_eq!(Ket::from_name("PLUS"), Some(Ket::Plus));
    assert_eq!(Ket::from_name("NEG"), Some(Ket::Minus));
    assert_eq!(Ket::from_name("I"), Some(Ket::PlusI));
    assert_eq!(Ket::from_name("NEG_I"), Some(Ket::MinusI));
    assert_eq!(Ket::from_name("TWO"), None);
    assert_eq!(Ket::from_name(""), None);
}

#[test]
fn ket_amplitudes() {
    let s = scalars();
    assert_eq!(Qubit::ket(Ket::One, &s).amplitudes(), (s.zero, s.one));
    assert_eq!(Qubit::ket(Ket::MinusI, &s).amplitudes(), (s.inv_sqrt2, s.neg_i_inv_sqrt2));
    assert_eq!(Qubit::new(s.zero, s.one).amplitudes(), (s.one, s.zero));
}

#[test]
fn single_qubit_gates() {
    let s = scalars();
    let mut q = Qubit::new(s.zero, s.one);
    q.X(&s, &mul, &add);
    assert_eq!(q.amplitudes(), (s.zero, s.one));
    q.Y(&s, &mul, &add);
    assert_eq!(q.amplitudes(), (s.neg_i, s.zero));
    q.Z(&s, &mul, &add);
    assert_eq!(q.amplitudes(), (s.neg_i, s.zero));
    q.S(&s, &mul, &add);
    q.I();
    assert_eq!(q.amplitudes(), (s.neg_i, s.zero));
    let mut p = Qubit::new(s.zero, s.one);
    p.H(&s, &mul, &add);
    assert_eq!(p.amplitudes(), (s.inv_sqrt2, s.inv_sqrt2));
}

#[test]
fn norm_stays_one_under_unitary_gates() {
    let s = scalars();
    let mut q = Qubit::new(s.zero, s.one);
    q.H(&s, &mul, &add);
    q.T(&s, &mul, &add);
    q.R_x(re(0.3f32.cos()), c(0.0, -(0.3f32.sin())), &mul, &add);
    q.S(&s, &mul, &add);
    q.R_y(re(1.1f32.cos()), re(1.1f32.sin()), re(-(1.1f32.sin())), &mul, &add);
    q.R_z(s.zero, c(0.4f32.cos(), -(0.4f32.sin())), c(0.4f32.cos(), 0.4f32.sin()), &mul, &add);
    q.R_1(s.zero, s.one, c(2.0f32.cos(), 2.0f32.sin()), &mul, &add);
    q.Y(&s, &mul, &add);
    let (a, b) = q.amplitudes();
    assert!((probability(a) + probability(b) - 1.0).abs() < 1e-5);
}

#[test]
fn cnot_flips_the_target_when_the_control_is_on() {
    let s = scalars();
    let mut sys: System<C> = System::new();
    let control = sys.allocate_ket(Ket::One, &s);
    let target = sys.allocate(s.zero, s.one);
    sys.CNOT(control, target, &s, &mul, &add);
    assert_eq!(column_of(sys.entry(0)), vec![s.zero, s.zero, s.zero, s.one]);
    assert!(matches!(sys.entry(1), StateEntry::EntangledStatePtr(0)));
}

#[test]
fn cnot_leaves_the_target_when_the_control_is_off() {
    let s = scalars();
    let mut sys: System<C> = System::new();
    let control = sys.allocate(s.zero, s.one);
    let target = sys.allocate_ket(Ket::Plus, &s);
    sys.CNOT(control, target, &s, &mul, &add);
    let want = vec![s.inv_sqrt2, s.inv_sqrt2, s.zero, s.zero];
    let got = column_of(sys.entry(0));
    assert!(got.iter().zip(want.iter()).all(|(x, y)| close(*x, *y)));
}

#[test]
fn swap_exchanges_the_two_qubits() {
    let s = scalars();
    let mut sys: System<C> = System::new();
    sys.allocate_ket(Ket::One, &s);
    sys.allocate(s.zero, s.one);
    sys.SWAP(0, 1, &s, &mul, &add);
    assert_eq!(column_of(sys.entry(0)), vec![s.zero, s.one, s.zero, s.zero]);
    assert!(matches!(sys.entry(1), StateEntry::EntangledStatePtr(0)));
}

#[test]
fn controlled_x_with_the_control_on_applies_x() {
    let s = scalars();
    let mut sys: System<C> = System::new();
    sys.allocate_ket(Ket::One, &s);
    sys.allocate(s.zero, s.one);
    sys.CONTROLLED_X(0, 1, &blend_weights, &s, &mul, &add);
    assert_eq!(column_of(sys.entry(1)), vec![s.zero, s.one]);
}

#[test]
fn controlled_x_with_the_control_off_is_the_identity() {
    let s = scalars();
    let mut sys: System<C> = System::new();
    sys.allocate(s.zero, s.one);
    sys.allocate_ket(Ket::Minus, &s);
    sys.CONTROLLED_X(0, 1, &blend_weights, &s, &mul, &add);
    assert_eq!(column_of(sys.entry(1)), vec![s.inv_sqrt2, s.neg_inv_sqrt2]);
}

#[test]
fn controlled_x_with_a_superposed_control_blends_and_does_not_entangle() {
    let s = scalars();
    let mut sys: System<C> = System::new();
    sys.allocate_ket(Ket::Plus, &s);
    sys.allocate(s.zero, s.one);
    sys.CONTROLLED_X(0, 1, &blend_weights, &s, &mul, &add);
    assert!(matches!(sys.entry(0), StateEntry::StandardQubit(_)));
    assert!(matches!(sys.entry(1), StateEntry::StandardQubit(_)));
    let w = (0.5f32).sqrt();
    let got = column_of(sys.entry(1));
    assert!(close(got[0], re(w)) && close(got[1], re(w)));
    assert_eq!(column_of(sys.entry(0)), vec![s.inv_sqrt2, s.inv_sqrt2]);
}

#[test]
fn build_gate_embeds_the_gate_between_identities() {
    let s = scalars();
    let mut sys: System<C> = System::new();
    for _ in 0..3 {
        sys.allocate(s.zero, s.one);
    }
    let built = sys.build_gate(vec![(1, Gate::X(&s))], &s, &mul);
    let reference = Gate::I(&s).tensor_product(&Gate::X(&s), &mul).tensor_product(&Gate::I(&s), &mul);
    assert_eq!((built.rows, built.cols), (8, 8));
    assert_eq!(cells(&built), cells(&reference));
}

#[test]
fn build_gate_with_no_gates_is_the_identity() {
    let s = scalars();
    let mut sys: System<C> = System::new();
    sys.allocate(s.zero, s.one);
    sys.allocate(s.zero, s.one);
    let built = sys.build_gate(Vec::new(), &s, &mul);
    let reference = Gate::I(&s).tensor_product(&Gate::I(&s), &mul);
    assert_eq!(cells(&built), cells(&reference));
}

#[test]
fn joint_state_counts_each_pair_once() {
    let s = scalars();
    let mut sys: System<C> = System::new();
    sys.allocate_ket(Ket::One, &s);
    sys.allocate(s.zero, s.one);
    sys.allocate_ket(Ket::One, &s);
    sys.CNOT(0, 1, &s, &mul, &add);
    let joint = sys.joint_state(&mul);
    assert_eq!((joint.rows, joint.cols), (8, 1));
    let mut want = vec![s.zero; 8];
    want[7] = s.one;
    assert_eq!(cells(&joint).into_iter().map(|r| r[0]).collect::<Vec<C>>(), want);
}

#[test]
fn joint_state_with_the_owner_after_its_pointer() {
    let s = scalars();
    let mut sys: System<C> = System::new();
    sys.allocate(s.zero, s.one);
    sys.allocate_ket(Ket::One, &s);
    sys.SWAP(1, 0, &s, &mul, &add);
    let joint = sys.joint_state(&mul);
    assert_eq!(cells(&joint).into_iter().map(|r| r[0]).collect::<Vec<C>>(), vec![s.zero, s.one, s.zero, s.zero]);
}

#[test]
fn apply_gate_changes_one_slot() {
    let s = scalars();
    let mut sys: System<C> = System::new();
    sys.allocate(s.zero, s.one);
    sys.allocate(s.zero, s.one);
    sys.apply_gate(1, &Gate::X(&s), &mul, &add);
    assert_eq!(column_of(sys.entry(0)), vec![s.one, s.zero]);
    assert_eq!(column_of(sys.entry(1)), vec![s.zero, s.one]);
    assert_eq!(sys.len(), 2);
    assert_eq!(sys.entry(1).unwrap_qubit().amplitudes(), (s.zero, s.one));
}

#[test]
fn anti_control_applies_the_gate_when_the_control_is_off() {
    let s = scalars();
    let mut sys: System<C> = System::new();
    sys.allocate(s.zero, s.one);
    sys.allocate(s.zero, s.one);
    sys.apply_probabilistic_blend(0, ControlKind::AntiControl, 1, &Gate::X(&s), &blend_weights, &s, &mul, &add);
    assert_eq!(column_of(sys.entry(1)), vec![s.zero, s.one]);
    assert_eq!(column_of(sys.entry(0)), vec![s.one, s.zero]);
}

#[test]
fn blended_control_with_another_gate() {
    let s = scalars();
    let mut sys: System<C> = System::new();
    sys.allocate_ket(Ket::One, &s);
    sys.allocate_ket(Ket::Plus, &s);
    sys.apply_probabilistic_blend(0, ControlKind::Control, 1, &Gate::Z(&s), &blend_weights, &s, &mul, &add);
    let got = column_of(sys.entry(1));
    assert!(close(got[0], s.inv_sqrt2) && close(got[1], s.neg_inv_sqrt2));
}

#[test]
fn joint_gate_of_a_given_matrix() {
    let s = scalars();
    let mut sys: System<C> = System::new();
    sys.allocate_ket(Ket::One, &s);
    sys.allocate(s.zero, s.one);
    let id4 = from_reals(&[&[1.0, 0.0, 0.0, 0.0], &[0.0, 1.0, 0.0, 0.0], &[0.0, 0.0, 1.0, 0.0], &[0.0, 0.0, 0.0, 1.0]]);
    sys.apply_joint_gate(0, 1, &id4, &mul, &add);
    assert_eq!(column_of(sys.entry(0)), vec![s.zero, s.zero, s.one, s.zero]);
    assert!(matches!(sys.entry(1), StateEntry::EntangledStatePtr(0)));
}

#[test]
fn eigenvalue_of_a_basis_vector() {
    let m = from_reals(&[&[1.0, 0.0], &[0.0, 1.0]]);
    let v = from_reals(&[&[1.0], &[0.0]]);
    assert_eq!(m.eigenvalue_from_eigenvector(&v, &mul, &add, &div, &is_zero), Some(re(1.0)));
    let w = from_reals(&[&[1.0], &[1.0]]);
    assert_eq!(m.eigenvalue_from_eigenvector(&w, &mul, &add, &div, &is_zero), None);
    let z = from_reals(&[&[0.0], &[0.0]]);
    assert_eq!(m.eigenvalue_from_eigenvector(&z, &mul, &add, &div, &is_zero), None);
}

#[test]
fn eigenvector_for_an_eigenvalue() {
    let s = scalars();
    let m = Matrix::new(vec![vec![c(1.0, 86.0), c(0.0, 28.0)], vec![c(12.0, 23.0), c(1.0, 23.0)]]).unwrap();
    let v = m.eigenvector_from_eigenvalue(c(1.0, 18.0), s.zero, s.one, &sub, &div, &is_zero);
    assert_eq!(v.get(0, 0), s.one);
    assert!(close(v.get(1, 0), re(-68.0 / 28.0)));
    let upper = from_reals(&[&[2.0, 5.0], &[0.0, 3.0]]);
    let e = upper.eigenvector_from_eigenvalue(re(3.0), s.zero, s.one, &sub, &div, &is_zero);
    assert_eq!(cells(&e), vec![vec![s.zero], vec![s.one]]);
    let f = upper.eigenvector_from_eigenvalue(re(2.0), s.zero, s.one, &sub, &div, &is_zero);
    assert_eq!(cells(&f), vec![vec![s.one], vec![s.zero]]);
}
