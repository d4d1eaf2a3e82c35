//! A register of qubits that tracks which of them have become entangled.
//!
//! Each slot of the register holds a standalone qubit, the joint state of an
//! entangled pair (in the slot that owns the pair), or the index of the slot
//! that owns the pair it belongs to.
use vstd::prelude::*;
use crate::gate::{Gate, Scalars};
use crate::matrix::{grid2, kronecker, product_of, with_scalar, zipped, Matrix};
use crate::qubit::{column2, Ket, Qubit};
use crate::scalar::is_binary_op;

verus! {

/// What one slot of a register holds.
pub enum StateEntry<T> {
    /// A qubit independent of all other slots.
    StandardQubit(Qubit<T>),
    /// The 4 by 1 joint state of an entangled pair; this slot owns the pair.
    EntangledState(Matrix<T>),
    /// The index of the slot that owns this slot's pair.
    EntangledStatePtr(usize),
}

/// The column a slot holds: a standalone qubit's state or a pair's joint
/// state; empty for a slot that points at its owner.
pub open spec fn column_of<T>(e: StateEntry<T>) -> Seq<Seq<T>> {
    match e {
        StateEntry::StandardQubit(q) => q.state@,
        StateEntry::EntangledState(m) => m@,
        StateEntry::EntangledStatePtr(_) => Seq::empty(),
    }
}

/// Slot `i` of `s` is well formed: a standalone qubit is a 2 by 1 column, a
/// joint state a 4 by 1 column, and a pointer names another slot that owns a
/// joint state.
pub open spec fn slot_ok<T: Copy>(s: Seq<StateEntry<T>>, i: int) -> bool {
    match s[i] {
        StateEntry::StandardQubit(q) => q.wf(),
        StateEntry::EntangledState(m) => m.wf() && m.rows == 4 && m.cols == 1,
        StateEntry::EntangledStatePtr(o) => 0 <= o < s.len() && o != i
            && s[o as int] is EntangledState,
    }
}

/// Every slot of `s` is well formed.
pub open spec fn is_register<T: Copy>(s: Seq<StateEntry<T>>) -> bool {
    forall|i: int| 0 <= i < s.len() ==> #[trigger] slot_ok(s, i)
}

/// `s` and `t` agree on every slot but `i` and `j`.
pub open spec fn same_except<T>(s: Seq<StateEntry<T>>, t: Seq<StateEntry<T>>, i: int, j: int) -> bool {
    &&& s.len() == t.len()
    &&& forall|k: int| 0 <= k < s.len() && k != i && k != j ==> #[trigger] t[k] == s[k]
}

/// The 4 by 4 permutation matrix that exchanges `|01>` and `|10>`.
pub open spec fn swap_grid<T>(zero: T, one: T) -> Seq<Seq<T>> {
    seq![
        seq![one, zero, zero, zero],
        seq![zero, zero, one, zero],
        seq![zero, one, zero, zero],
        seq![zero, zero, zero, one],
    ]
}

/// The 4 by 4 permutation matrix that exchanges `|10>` and `|11>`.
pub open spec fn cnot_grid<T>(zero: T, one: T) -> Seq<Seq<T>> {
    seq![
        seq![one, zero, zero, zero],
        seq![zero, one, zero, zero],
        seq![zero, zero, zero, one],
        seq![zero, zero, one, zero],
    ]
}

/// The largest register whose full-register gates and joint state are built:
/// their dimensions must stay within 32 bits.
pub const MAX_QUBITS: usize = 15;

/// Two to the power `n`.
pub open spec fn two_to(n: nat) -> nat
    decreases n,
{
    if n == 0 {
        1
    } else {
        2 * two_to((n - 1) as nat)
    }
}

proof fn lemma_two_to_mono(a: nat, b: nat)
    requires
        a <= b,
    ensures
        1 <= two_to(a) <= two_to(b),
    decreases b,
{
    if a < b {
        lemma_two_to_mono(a, (b - 1) as nat);
    } else if a > 0 {
        lemma_two_to_mono((a - 1) as nat, (a - 1) as nat);
    }
}

proof fn lemma_two_to_bound(n: nat)
    requires
        n <= 30,
    ensures
        1 <= two_to(n) <= 1073741824,
{
    reveal_with_fuel(two_to, 31);
    lemma_two_to_mono(n, 30);
}

/// The indices of `inputs` rise strictly and stay below `n`, and every
/// matrix listed is a 2 by 2 gate.
pub open spec fn is_gate_list<T: Copy>(inputs: Seq<(usize, Matrix<T>)>, n: int) -> bool {
    &&& forall|m: int|
        0 <= m < inputs.len() ==> {
            &&& (#[trigger] inputs[m]).0 < n
            &&& inputs[m].1.wf()
            &&& inputs[m].1.rows == 2
            &&& inputs[m].1.cols == 2
        }
    &&& forall|m: int, l: int| 0 <= m < l < inputs.len() ==> #[trigger] inputs[m].0 < #[trigger] inputs[l].0
}

/// The factor for qubit `k`: the matrix paired with index `k`, or `id` when there is none.
pub open spec fn factor_at<T>(inputs: Seq<(usize, Matrix<T>)>, k: int, id: Seq<Seq<T>>) -> Seq<Seq<T>> {
    if exists|m: int| 0 <= m < inputs.len() && inputs[m].0 == k {
        inputs[choose|m: int| 0 <= m < inputs.len() && inputs[m].0 == k].1@
    } else {
        id
    }
}

/// `[[one]] (x) F_0 (x) F_1 (x) ... (x) F_(n-1)`, where `F_k` is the factor for qubit `k`.
pub open spec fn gate_chain<T, M: Fn(T, T) -> T>(
    inputs: Seq<(usize, Matrix<T>)>,
    n: nat,
    id: Seq<Seq<T>>,
    one: T,
    mul: M,
) -> Seq<Seq<T>>
    decreases n,
{
    if n == 0 {
        seq![seq![one]]
    } else {
        kronecker(gate_chain(inputs, (n - 1) as nat, id, one, mul), factor_at(inputs, n - 1, id), mul)
    }
}

/// What slot `e` adds to the register's joint state: its column, or nothing
/// for a slot that points at its owner.
pub open spec fn contribution<T>(e: StateEntry<T>) -> Option<Seq<Seq<T>>> {
    match e {
        StateEntry::EntangledStatePtr(_) => None,
        _ => Some(column_of(e)),
    }
}

/// The Kronecker product, in slot order, of what the slots of `s` contribute;
/// `None` when no slot contributes.
pub open spec fn joint_of<T, M: Fn(T, T) -> T>(s: Seq<StateEntry<T>>, mul: M) -> Option<Seq<Seq<T>>>
    decreases s.len(),
{
    if s.len() == 0 {
        None
    } else {
        let prev = joint_of(s.drop_last(), mul);
        match contribution(s.last()) {
            None => prev,
            Some(c) => match prev {
                None => Some(c),
                Some(p) => Some(kronecker(p, c, mul)),
            },
        }
    }
}

/// The single-qubit operator `w.0 * I + w.1 * g`.
pub open spec fn blend<T, M: Fn(T, T) -> T, A: Fn(T, T) -> T>(
    s: Scalars<T>,
    g: Seq<Seq<T>>,
    w: (T, T),
    mul: M,
    add: A,
) -> Seq<Seq<T>> {
    zipped(with_scalar(grid2(s.one, s.zero, s.zero, s.one), w.0, mul), with_scalar(g, w.1, mul), add)
}

/// How a control qubit conditions a blended gate.
#[derive(Clone, Copy, Debug, PartialEq, Eq, Structural)]
pub enum ControlKind {
    /// The operator is weighed by the probability that the control is on.
    Control,
    /// The operator is weighed by the probability that the control is off.
    AntiControl,
}

/// The weights `(of I, of the operator)` for a control of kind `k`, from the
/// weights `w = (sqrt(1 - p), sqrt(p))` for the probability `p` that the control is on.
pub open spec fn oriented<T>(k: ControlKind, w: (T, T)) -> (T, T) {
    match k {
        ControlKind::Control => w,
        ControlKind::AntiControl => (w.1, w.0),
    }
}

impl<T: Copy> StateEntry<T> {
    /// The qubit of a standalone slot.
    pub fn unwrap_qubit(&self) -> (r: &Qubit<T>)
        requires
            *self is StandardQubit,
        ensures
            *self == StateEntry::StandardQubit(*r),
    {
        match self {
            StateEntry::StandardQubit(q) => q,
            _ => unreached(),
        }
    }
}

/// A register of qubits.
pub struct System<T> {
    state: Vec<StateEntry<T>>,
}

impl<T> View for System<T> {
    type V = Seq<StateEntry<T>>;

    closed spec fn view(&self) -> Seq<StateEntry<T>> {
        self.state@
    }
}

impl<T: Copy> System<T> {
    /// Every slot is well formed.
    pub open spec fn wf(&self) -> bool {
        is_register(self@)
    }

    /// An empty register.
    pub fn new() -> (r: System<T>)
        ensures
            r.wf(),
            r@ == Seq::<StateEntry<T>>::empty(),
    {
        System { state: Vec::new() }
    }

    /// The number of slots.
    pub fn len(&self) -> (n: usize)
        ensures
            n == self@.len(),
    {
        self.state.len()
    }

    /// Slot `i`.
    pub fn entry(&self, i: usize) -> (e: &StateEntry<T>)
        requires
            i < self@.len(),
        ensures
            *e == self@[i as int],
    {
        &self.state[i]
    }

    /// Appends a slot holding `q`; returns its index.
    fn push_qubit(&mut self, q: Qubit<T>) -> (idx: usize)
        requires
            old(self).wf(),
            q.wf(),
        ensures
            final(self).wf(),
            idx == old(self)@.len(),
            final(self)@ == old(self)@.push(StateEntry::StandardQubit(q)),
    {
        let ghost before = self@;
        self.state.push(StateEntry::StandardQubit(q));
        assert forall|i: int| 0 <= i < self@.len() implies #[trigger] slot_ok(self@, i) by {
            if i < before.len() {
                assert(slot_ok(before, i));
            }
        }
        self.state.len() - 1
    }

    /// Appends a standalone qubit in `|0>`; returns its index.
    pub fn allocate(&mut self, zero: T, one: T) -> (idx: usize)
        requires
            old(self).wf(),
        ensures
            final(self).wf(),
            idx == old(self)@.len(),
            final(self)@.len() == old(self)@.len() + 1,
            forall|k: int| 0 <= k < idx ==> #[trigger] final(self)@[k] == old(self)@[k],
            final(self)@[idx as int] is StandardQubit,
            column_of(final(self)@[idx as int]) == column2(one, zero),
    {
        let idx = self.push_qubit(Qubit::new(zero, one));
        assert(self@[idx as int] is StandardQubit);
        idx
    }

    /// Appends a standalone qubit in the named state `k`; returns its index.
    pub fn allocate_ket(&mut self, k: Ket, s: &Scalars<T>) -> (idx: usize)
        requires
            old(self).wf(),
        ensures
            final(self).wf(),
            idx == old(self)@.len(),
            final(self)@.len() == old(self)@.len() + 1,
            forall|i: int| 0 <= i < idx ==> #[trigger] final(self)@[i] == old(self)@[i],
            final(self)@[idx as int] is StandardQubit,
            column_of(final(self)@[idx as int]) == k.amplitudes(*s),
    {
        let idx = self.push_qubit(Qubit::ket(k, s));
        assert(self@[idx as int] is StandardQubit);
        idx
    }

    /// Left-multiplies the standalone qubit in slot `idx` by the 2 by 2 matrix `gate`.
    pub fn apply_gate<M: Fn(T, T) -> T, A: Fn(T, T) -> T>(
        &mut self,
        idx: usize,
        gate: &Matrix<T>,
        mul: &M,
        add: &A,
    )
        requires
            old(self).wf(),
            idx < old(self)@.len(),
            old(self)@[idx as int] is StandardQubit,
            gate.wf(),
            gate.rows == 2,
            gate.cols == 2,
            is_binary_op(*mul),
            is_binary_op(*add),
        ensures
            final(self).wf(),
            same_except(old(self)@, final(self)@, idx as int, idx as int),
            final(self)@[idx as int] is StandardQubit,
            column_of(final(self)@[idx as int]) == product_of(
                gate@,
                column_of(old(self)@[idx as int]),
                *mul,
                *add,
            ),
    {
        let ghost before = self@;
        let q = self.state[idx].unwrap_qubit();
        assert(slot_ok(before, idx as int));
        let state = gate.product(&q.state, mul, add);
        self.state.set(idx, StateEntry::StandardQubit(Qubit { state }));
        assert forall|i: int| 0 <= i < self@.len() implies #[trigger] slot_ok(self@, i) by {
            assert(slot_ok(before, i));
        }
    }

    /// Replaces the standalone qubits in slots `i` and `j` by their joint
    /// state `gate * (q_i (x) q_j)`, owned by slot `i`; slot `j` points at `i`.
    pub fn apply_joint_gate<M: Fn(T, T) -> T, A: Fn(T, T) -> T>(
        &mut self,
        i: usize,
        j: usize,
        gate: &Matrix<T>,
        mul: &M,
        add: &A,
    )
        requires
            old(self).wf(),
            i < old(self)@.len(),
            j < old(self)@.len(),
            i != j,
            old(self)@[i as int] is StandardQubit,
            old(self)@[j as int] is StandardQubit,
            gate.wf(),
            gate.rows == 4,
            gate.cols == 4,
            is_binary_op(*mul),
            is_binary_op(*add),
        ensures
            final(self).wf(),
            same_except(old(self)@, final(self)@, i as int, j as int),
            final(self)@[i as int] is EntangledState,
            column_of(final(self)@[i as int]) == product_of(
                gate@,
                kronecker(column_of(old(self)@[i as int]), column_of(old(self)@[j as int]), *mul),
                *mul,
                *add,
            ),
            final(self)@[j as int] == StateEntry::<T>::EntangledStatePtr(i),
    {
        let ghost before = self@;
        assert(slot_ok(before, i as int));
        assert(slot_ok(before, j as int));
        let joint = {
            let qi = self.state[i].unwrap_qubit();
            let qj = self.state[j].unwrap_qubit();
            let pair = qi.state.tensor_product(&qj.state, mul);
            gate.product(&pair, mul, add)
        };
        self.state.set(i, StateEntry::EntangledState(joint));
        self.state.set(j, StateEntry::EntangledStatePtr(i));
        assert forall|k: int| 0 <= k < self@.len() implies #[trigger] slot_ok(self@, k) by {
            assert(slot_ok(before, k));
        }
    }

    /// Exchanges the standalone qubits in slots `i` and `j`; they become an
    /// entangled pair owned by slot `i`.
    #[allow(non_snake_case)]
    pub fn SWAP<M: Fn(T, T) -> T, A: Fn(T, T) -> T>(
        &mut self,
        i: usize,
        j: usize,
        s: &Scalars<T>,
        mul: &M,
        add: &A,
    )
        requires
            old(self).wf(),
            i < old(self)@.len(),
            j < old(self)@.len(),
            i != j,
            old(self)@[i as int] is StandardQubit,
            old(self)@[j as int] is StandardQubit,
            is_binary_op(*mul),
            is_binary_op(*add),
        ensures
            final(self).wf(),
            same_except(old(self)@, final(self)@, i as int, j as int),
            final(self)@[i as int] is EntangledState,
            column_of(final(self)@[i as int]) == product_of(
                swap_grid(s.zero, s.one),
                kronecker(column_of(old(self)@[i as int]), column_of(old(self)@[j as int]), *mul),
                *mul,
                *add,
            ),
            final(self)@[j as int] == StateEntry::<T>::EntangledStatePtr(i),
    {
        let (o, z) = (s.one, s.zero);
        let gate = Matrix {
            value: vec![vec![o, z, z, z], vec![z, z, o, z], vec![z, o, z, z], vec![z, z, z, o]],
            rows: 4,
            cols: 4,
        };
        assert(gate@ =~~= swap_grid(z, o));
        self.apply_joint_gate(i, j, &gate, mul, add);
    }

    /// Flips the standalone qubit in slot `j` where the standalone qubit in
    /// slot `i` is on; they become an entangled pair owned by slot `i`.
    #[allow(non_snake_case)]
    pub fn CNOT<M: Fn(T, T) -> T, A: Fn(T, T) -> T>(
        &mut self,
        i: usize,
        j: usize,
        s: &Scalars<T>,
        mul: &M,
        add: &A,
    )
        requires
            old(self).wf(),
            i < old(self)@.len(),
            j < old(self)@.len(),
            i != j,
            old(self)@[i as int] is StandardQubit,
            old(self)@[j as int] is StandardQubit,
            is_binary_op(*mul),
            is_binary_op(*add),
        ensures
            final(self).wf(),
            same_except(old(self)@, final(self)@, i as int, j as int),
            final(self)@[i as int] is EntangledState,
            column_of(final(self)@[i as int]) == product_of(
                cnot_grid(s.zero, s.one),
                kronecker(column_of(old(self)@[i as int]), column_of(old(self)@[j as int]), *mul),
                *mul,
                *add,
            ),
            final(self)@[j as int] == StateEntry::<T>::EntangledStatePtr(i),
    {
        let (o, z) = (s.one, s.zero);
        let gate = Matrix {
            value: vec![vec![o, z, z, z], vec![z, o, z, z], vec![z, z, z, o], vec![z, z, o, z]],
            rows: 4,
            cols: 4,
        };
        assert(gate@ =~~= cnot_grid(z, o));
        self.apply_joint_gate(i, j, &gate, mul, add);
    }
    /// The operator on the whole register that applies each listed gate to
    /// its qubit and the identity to every other qubit: the Kronecker product
    /// of one factor per qubit, the first qubit leftmost.
    pub fn build_gate<M: Fn(T, T) -> T>(
        &self,
        inputs: Vec<(usize, Matrix<T>)>,
        s: &Scalars<T>,
        mul: &M,
    ) -> (r: Matrix<T>)
        requires
            self@.len() <= MAX_QUBITS,
            is_gate_list(inputs@, self@.len() as int),
            is_binary_op(*mul),
        ensures
            r.wf(),
            r.rows == two_to(self@.len()),
            r.cols == two_to(self@.len()),
            r@ == gate_chain(
                inputs@,
                self@.len(),
                grid2(s.one, s.zero, s.zero, s.one),
                s.one,
                *mul,
            ),
    {
        let n = self.state.len();
        let id = Gate::I(s);
        let ghost idg = grid2(s.one, s.zero, s.zero, s.one);
        let mut base = Matrix { value: vec![vec![s.one]], rows: 1, cols: 1 };
        assert(base@ =~~= gate_chain(inputs@, 0, idg, s.one, *mul));
        let mut cur: usize = 0;
        let mut m: usize = 0;
        while m < inputs.len()
            invariant
                n == self@.len(),
                n <= MAX_QUBITS,
                is_gate_list(inputs@, n as int),
                is_binary_op(*mul),
                id.wf(),
                id.rows == 2,
                id.cols == 2,
                id@ == idg,
                0 <= m <= inputs@.len(),
                m == 0 ==> cur == 0,
                m > 0 ==> cur == inputs@[m - 1].0 + 1,
                cur <= n,
                base.wf(),
                base.rows == two_to(cur as nat),
                base.cols == two_to(cur as nat),
                base@ == gate_chain(inputs@, cur as nat, idg, s.one, *mul),
            decreases inputs@.len() - m,
        {
            let idx = inputs[m].0;
            assert(inputs@[m as int].0 < n);
            assert(m > 0 ==> inputs@[m - 1].0 < inputs@[m as int].0);
            while cur < idx
                invariant
                    n == self@.len(),
                    n <= MAX_QUBITS,
                    is_gate_list(inputs@, n as int),
                    is_binary_op(*mul),
                    id.wf(),
                    id.rows == 2,
                    id.cols == 2,
                    id@ == idg,
                    0 <= m < inputs@.len(),
                    idx == inputs@[m as int].0,
                    idx < n,
                    m > 0 ==> inputs@[m - 1].0 < cur,
                    cur <= idx,
                    base.wf(),
                    base.rows == two_to(cur as nat),
                    base.cols == two_to(cur as nat),
                    base@ == gate_chain(inputs@, cur as nat, idg, s.one, *mul),
                decreases idx - cur,
            {
                proof {
                    lemma_two_to_bound((cur + 1) as nat);
                    assert forall|l: int| 0 <= l < inputs@.len() implies inputs@[l].0 != cur by {
                        if l < m {
                            if l < m - 1 {
                                assert(inputs@[l].0 < inputs@[m - 1].0);
                            }
                        } else if l > m {
                            assert(inputs@[m as int].0 < inputs@[l].0);
                        }
                    }
                    assert(factor_at(inputs@, cur as int, idg) == idg);
                }
                base = base.tensor_product(&id, mul);
                cur += 1;
            }
            proof {
                lemma_two_to_bound((cur + 1) as nat);
                let w = choose|l: int| 0 <= l < inputs@.len() && inputs@[l].0 == cur;
                assert(0 <= m < inputs@.len() && inputs@[m as int].0 == cur);
                if w < m {
                    assert(inputs@[w].0 < inputs@[m as int].0);
                } else if w > m {
                    assert(inputs@[m as int].0 < inputs@[w].0);
                }
                assert(factor_at(inputs@, cur as int, idg) == inputs@[m as int].1@);
            }
            base = base.tensor_product(&inputs[m].1, mul);
            cur += 1;
            m += 1;
        }
        while cur < n
            invariant
                n == self@.len(),
                n <= MAX_QUBITS,
                is_gate_list(inputs@, n as int),
                is_binary_op(*mul),
                id.wf(),
                id.rows == 2,
                id.cols == 2,
                id@ == idg,
                inputs@.len() > 0 ==> inputs@[inputs@.len() - 1].0 < cur,
                cur <= n,
                base.wf(),
                base.rows == two_to(cur as nat),
                base.cols == two_to(cur as nat),
                base@ == gate_chain(inputs@, cur as nat, idg, s.one, *mul),
            decreases n - cur,
        {
            proof {
                lemma_two_to_bound((cur + 1) as nat);
                assert forall|l: int| 0 <= l < inputs@.len() implies inputs@[l].0 != cur by {
                    if l < inputs@.len() - 1 {
                        assert(inputs@[l].0 < inputs@[inputs@.len() - 1].0);
                    }
                }
                assert(factor_at(inputs@, cur as int, idg) == idg);
            }
            base = base.tensor_product(&id, mul);
            cur += 1;
        }
        base
    }
    /// The joint state of the whole register: the Kronecker product, in slot
    /// order, of every standalone qubit and every entangled pair, each pair
    /// counted once, in the slot that owns it.
    pub fn joint_state<M: Fn(T, T) -> T>(&self, mul: &M) -> (r: Matrix<T>)
        requires
            self.wf(),
            1 <= self@.len() <= MAX_QUBITS,
            is_binary_op(*mul),
        ensures
            r.wf(),
            r.cols == 1,
            joint_of(self@, *mul) == Some(r@),
    {
        let n = self.state.len();
        let mut acc: Option<Matrix<T>> = None;
        let mut k: usize = 0;
        while k < n
            invariant
                self.wf(),
                n == self@.len(),
                n <= MAX_QUBITS,
                is_binary_op(*mul),
                0 <= k <= n,
                acc is None ==> joint_of(self@.take(k as int), *mul) is None && forall|l: int|
                    0 <= l < k ==> #[trigger] self@[l] is EntangledStatePtr,
                acc matches Some(m) ==> {
                    &&& m.wf()
                    &&& m.cols == 1
                    &&& m.rows <= two_to((2 * k) as nat)
                    &&& joint_of(self@.take(k as int), *mul) == Some(m@)
                },
            decreases n - k,
        {
            proof {
                assert(self@.take(k + 1).drop_last() =~= self@.take(k as int));
                assert(self@.take(k + 1).last() == self@[k as int]);
                assert(slot_ok(self@, k as int));
                lemma_two_to_bound((2 * k + 2) as nat);
                assert(two_to((2 * k + 2) as nat) == 2 * two_to((2 * k + 1) as nat));
                assert(two_to((2 * k + 1) as nat) == 2 * two_to((2 * k) as nat));
            }
            let c: Option<&Matrix<T>> = match &self.state[k] {
                StateEntry::StandardQubit(q) => Some(&q.state),
                StateEntry::EntangledState(m) => Some(m),
                StateEntry::EntangledStatePtr(_) => None,
            };
            match c {
                None => {},
                Some(c) => {
                    acc = match acc {
                        None => Some(c.copy()),
                        Some(m) => Some(m.tensor_product(c, mul)),
                    };
                },
            }
            k += 1;
        }
        proof {
            assert(self@.take(n as int) =~= self@);
        }
        match acc {
            Some(m) => m,
            None => {
                proof {
                    assert(slot_ok(self@, 0));
                }
                unreached()
            },
        }
    }

    /// Applies `w.0 * I + w.1 * gate` to the standalone qubit in slot
    /// `target`, where `w` comes from what `weights` gives for the `|1>`
    /// amplitude of the standalone qubit in slot `control`:
    /// `(sqrt(1 - p), sqrt(p))` for the probability `p` that the control is on,
    /// exchanged for an anti-control. No slot becomes entangled.
    pub fn apply_probabilistic_blend<W: Fn(T) -> (T, T), M: Fn(T, T) -> T, A: Fn(T, T) -> T>(
        &mut self,
        control: usize,
        kind: ControlKind,
        target: usize,
        gate: &Matrix<T>,
        weights: &W,
        s: &Scalars<T>,
        mul: &M,
        add: &A,
    )
        requires
            old(self).wf(),
            control < old(self)@.len(),
            target < old(self)@.len(),
            old(self)@[control as int] is StandardQubit,
            old(self)@[target as int] is StandardQubit,
            gate.wf(),
            gate.rows == 2,
            gate.cols == 2,
            forall|x: T| #[trigger] weights.requires((x,)),
            is_binary_op(*mul),
            is_binary_op(*add),
        ensures
            final(self).wf(),
            same_except(old(self)@, final(self)@, target as int, target as int),
            final(self)@[target as int] is StandardQubit,
            exists|w: (T, T)|
                weights.ensures((column_of(old(self)@[control as int])[1][0],), w) && column_of(
                    final(self)@[target as int],
                ) == product_of(
                    blend(*s, gate@, oriented(kind, w), *mul, *add),
                    column_of(old(self)@[target as int]),
                    *mul,
                    *add,
                ),
    {
        assert(slot_ok(self@, control as int));
        let beta = self.state[control].unwrap_qubit().state.get(1, 0);
        let w = weights(beta);
        let (wi, wg) = match kind {
            ControlKind::Control => (w.0, w.1),
            ControlKind::AntiControl => (w.1, w.0),
        };
        let on = Gate::I(s).scalar_op(wi, mul);
        let off = gate.scalar_op(wg, mul);
        let op = on.elementwise(&off, add);
        let ghost before = self@;
        assert(op@ == blend(*s, gate@, oriented(kind, w), *mul, *add));
        assert(beta == column_of(before[control as int])[1][0]);
        self.apply_gate(target, &op, mul, add);
        assert(weights.ensures((column_of(before[control as int])[1][0],), w));
    }

    /// Applies `w.0 * I + w.1 * X` to the standalone qubit in slot `target`,
    /// where `w` is what `weights` gives for the `|1>` amplitude of the
    /// standalone qubit in slot `control`: `(sqrt(1 - p), sqrt(p))` for the
    /// probability `p` that the control is on. No slot becomes entangled.
    #[allow(non_snake_case)]
    pub fn CONTROLLED_X<W: Fn(T) -> (T, T), M: Fn(T, T) -> T, A: Fn(T, T) -> T>(
        &mut self,
        control: usize,
        target: usize,
        weights: &W,
        s: &Scalars<T>,
        mul: &M,
        add: &A,
    )
        requires
            old(self).wf(),
            control < old(self)@.len(),
            target < old(self)@.len(),
            old(self)@[control as int] is StandardQubit,
            old(self)@[target as int] is StandardQubit,
            forall|x: T| #[trigger] weights.requires((x,)),
            is_binary_op(*mul),
            is_binary_op(*add),
        ensures
            final(self).wf(),
            same_except(old(self)@, final(self)@, target as int, target as int),
            final(self)@[target as int] is StandardQubit,
            exists|w: (T, T)|
                weights.ensures((column_of(old(self)@[control as int])[1][0],), w) && column_of(
                    final(self)@[target as int],
                ) == product_of(
                    blend(*s, grid2(s.zero, s.one, s.one, s.zero), w, *mul, *add),
                    column_of(old(self)@[target as int]),
                    *mul,
                    *add,
                ),
    {
        self.apply_probabilistic_blend(control, ControlKind::Control, target, &Gate::X(s), weights, s, mul, add);
    }
}

} // verus!
