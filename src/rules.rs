use vstd::prelude::*;
use vstd::arithmetic::div_mod::lemma_add_mod_noop;

verus! {

/// Number of live states; the state identifiers `0..LIVE_STATES` carry a rule.
pub const LIVE_STATES: usize = 255;

/// The absorbing trap state: driving it changes nothing.
pub const TRAP: u8 = 255;

/// Number of state identifiers, the trap included; the selector works modulo this.
pub const STATE_COUNT: u64 = 256;

/// The arithmetic applied to one slot.
#[derive(Clone, Copy, Debug, PartialEq, Eq, Structural)]
pub enum OpKind {
    Add,
    Sub,
    Mul,
    Div,
    Nop,
}

/// One slot operation: the slot becomes `slot <op> (constant + input)`, wrapping.
#[derive(Clone, Copy, Debug, PartialEq, Eq, Structural)]
pub struct SlotOp {
    pub kind: OpKind,
    pub constant: u64,
}

/// The slot operations of one live state, one per slot.
#[derive(Debug)]
pub struct TransitionRule {
    pub slots: Vec<SlotOp>,
}

/// The rules of the live states for one vector size.
#[derive(Debug)]
pub struct RuleSet {
    pub size: usize,
    pub rules: Vec<TransitionRule>,
}

/// The operation kind that a draw from `0..5` selects; anything from 4 up is a no-op.
pub open spec fn op_of_choice(k: u64) -> OpKind {
    if k == 0 {
        OpKind::Add
    } else if k == 1 {
        OpKind::Sub
    } else if k == 2 {
        OpKind::Mul
    } else if k == 3 {
        OpKind::Div
    } else {
        OpKind::Nop
    }
}

/// A slot's new value. A division whose divisor wrapped to zero leaves the slot as it is.
pub open spec fn apply_op_spec(op: SlotOp, x: u64, data: u64) -> u64 {
    let operand = vstd::wrapping::u64_specs::wrapping_add(op.constant, data);
    match op.kind {
        OpKind::Add => vstd::wrapping::u64_specs::wrapping_add(x, operand),
        OpKind::Sub => vstd::wrapping::u64_specs::wrapping_sub(x, operand),
        OpKind::Mul => vstd::wrapping::u64_specs::wrapping_mul(x, operand),
        OpKind::Div => if operand == 0 { x } else { (x / operand) as u64 },
        OpKind::Nop => x,
    }
}

/// The vector after a rule's slot operations, slot by slot.
pub open spec fn apply_slots(ops: Seq<SlotOp>, v: Seq<u64>, data: u64) -> Seq<u64> {
    Seq::new(v.len(), |i: int| apply_op_spec(ops[i], v[i], data))
}

/// The mathematical sum of the slots.
pub open spec fn slot_sum(v: Seq<u64>) -> int
    decreases v.len(),
{
    if v.len() == 0 {
        0
    } else {
        slot_sum(v.drop_last()) + v.last()
    }
}

/// The next state identifier: the sum of the slots modulo 256.
pub open spec fn selector(v: Seq<u64>) -> u8 {
    (slot_sum(v) % (STATE_COUNT as int)) as u8
}

/// One drive of a machine in state `id` with rule table `rules`.
pub open spec fn step(rules: Seq<Seq<SlotOp>>, id: u8, v: Seq<u64>, data: u64) -> (u8, Seq<u64>) {
    if id == TRAP {
        (id, v)
    } else {
        let w = apply_slots(rules[id as int], v, data);
        (selector(w), w)
    }
}

/// The state and vector after driving with each input in turn.
pub open spec fn run(rules: Seq<Seq<SlotOp>>, id: u8, v: Seq<u64>, inputs: Seq<u64>) -> (u8, Seq<u64>)
    decreases inputs.len(),
{
    if inputs.len() == 0 {
        (id, v)
    } else {
        let (id2, v2) = run(rules, id, v, inputs.drop_last());
        step(rules, id2, v2, inputs.last())
    }
}

/// Index of the constant drawn for slot `i` of state `n`; the operation choice follows it.
pub open spec fn draw_index(size: nat, n: nat, i: nat) -> nat {
    2 * (n * size + i)
}

/// The rules that a stream of draws yields: per state, per slot, a constant then a choice.
pub open spec fn rules_of(size: nat, d: Seq<u64>) -> Seq<Seq<SlotOp>> {
    Seq::new(
        LIVE_STATES as nat,
        |n: int|
            Seq::new(
                size,
                |i: int|
                    SlotOp {
                        kind: op_of_choice(d[draw_index(size, n as nat, i as nat) + 1int]),
                        constant: d[draw_index(size, n as nat, i as nat) as int],
                    },
            ),
    )
}

/// The number of draws that a rule set of this size consumes.
pub open spec fn draw_count(size: nat) -> nat {
    510 * size
}

/// Once a machine is in the trap state, no sequence of inputs changes its state or vector.
pub proof fn lemma_trap_absorbs(rules: Seq<Seq<SlotOp>>, v: Seq<u64>, inputs: Seq<u64>)
    ensures
        run(rules, TRAP, v, inputs) == (TRAP, v),
    decreases inputs.len(),
{
    if inputs.len() > 0 {
        lemma_trap_absorbs(rules, v, inputs.drop_last());
    }
}

/// The selector always names a state identifier: the slot sum modulo 256 lies in
/// `[0, 255]` and is kept whole by the conversion to `u8`.
pub proof fn lemma_selector_range(v: Seq<u64>)
    ensures
        0 <= slot_sum(v) % 256 <= 255,
        selector(v) as int == slot_sum(v) % 256,
{
}

/// Each of the five operation kinds is selected by exactly one of the five choices
/// `0..5`, so a uniform choice gives each kind, the no-op included, a share of one fifth.
pub proof fn lemma_choice_covers_kinds(kind: OpKind)
    ensures
        exists|k: u64| k < 5 && op_of_choice(k) == kind,
        forall|k1: u64, k2: u64|
            k1 < 5 && k2 < 5 && op_of_choice(k1) == kind && op_of_choice(k2) == kind ==> k1 == k2,
{
    match kind {
        OpKind::Add => assert(op_of_choice(0) == kind),
        OpKind::Sub => assert(op_of_choice(1) == kind),
        OpKind::Mul => assert(op_of_choice(2) == kind),
        OpKind::Div => assert(op_of_choice(3) == kind),
        OpKind::Nop => assert(op_of_choice(4) == kind),
    }
}

impl TransitionRule {
    /// A copy of the rule.
    pub fn duplicate(&self) -> (r: TransitionRule)
        ensures
            r.slots@ == self.slots@,
    {
        let mut slots: Vec<SlotOp> = Vec::new();
        let mut i: usize = 0;
        while i < self.slots.len()
            invariant
                i <= self.slots@.len(),
                slots@ == self.slots@.subrange(0, i as int),
            decreases self.slots@.len() - i,
        {
            slots.push(self.slots[i]);
            i = i + 1;
            assert(slots@ =~= self.slots@.subrange(0, i as int));
        }
        assert(slots@ =~= self.slots@);
        TransitionRule { slots }
    }
}

impl RuleSet {
    /// The rules of the live states, as sequences of slot operations.
    pub open spec fn view(&self) -> Seq<Seq<SlotOp>> {
        Seq::new(self.rules@.len(), |n: int| self.rules@[n].slots@)
    }

    /// One rule per live state, each with one operation per slot.
    pub open spec fn wf(&self) -> bool {
        &&& self.rules@.len() == LIVE_STATES
        &&& forall|n: int| 0 <= n < LIVE_STATES ==> (#[trigger] self.rules@[n]).slots@.len() == self.size
    }

    /// Builds the rules from a stream of draws: for each live state in order, for each
    /// slot in order, a constant and then an operation choice.
    pub fn from_draws(size: usize, draws: &Vec<u64>) -> (r: RuleSet)
        requires
            draws@.len() == draw_count(size as nat),
        ensures
            r.wf(),
            r.size == size,
            r@ == rules_of(size as nat, draws@),
    {
        let total: usize = draws.len();
        let mut rules: Vec<TransitionRule> = Vec::new();
        let mut k: usize = 0;
        let mut n: usize = 0;
        while n < LIVE_STATES
            invariant
                n <= LIVE_STATES,
                draws@.len() == draw_count(size as nat),
                total == draws@.len(),
                k == draw_index(size as nat, n as nat, 0),
                rules@.len() == n,
                forall|m: int| 0 <= m < n ==> (#[trigger] rules@[m]).slots@ == rules_of(size as nat, draws@)[m],
            decreases LIVE_STATES - n,
        {
            let mut slots: Vec<SlotOp> = Vec::new();
            let mut i: usize = 0;
            while i < size
                invariant
                    n < LIVE_STATES,
                    i <= size,
                    draws@.len() == draw_count(size as nat),
                    total == draws@.len(),
                    k == draw_index(size as nat, n as nat, i as nat),
                    slots@.len() == i,
                    forall|j: int| 0 <= j < i ==> #[trigger] slots@[j] == rules_of(size as nat, draws@)[n as int][j],
                decreases size - i,
            {
                assert(k + 2 <= 2 * 255 * size) by (nonlinear_arith)
                    requires
                        n < 255,
                        i < size,
                        k == 2 * (n * size + i),
                ;
                assert(k + 2 <= draws@.len());
                let op = SlotOp { kind: choice_to_kind(draws[k + 1]), constant: draws[k] };
                slots.push(op);
                k = k + 2;
                i = i + 1;
            }
            assert(slots@ =~= rules_of(size as nat, draws@)[n as int]);
            assert(draw_index(size as nat, n as nat, size as nat) == draw_index(size as nat, (n + 1) as nat, 0)) by (nonlinear_arith);
            rules.push(TransitionRule { slots });
            n = n + 1;
        }
        let r = RuleSet { size, rules };
        assert(r@ =~= rules_of(size as nat, draws@));
        r
    }
}

/// The operation kind selected by a draw from `0..5`.
pub fn choice_to_kind(k: u64) -> (r: OpKind)
    ensures
        r == op_of_choice(k),
{
    if k == 0 {
        OpKind::Add
    } else if k == 1 {
        OpKind::Sub
    } else if k == 2 {
        OpKind::Mul
    } else if k == 3 {
        OpKind::Div
    } else {
        OpKind::Nop
    }
}

/// Applies one slot operation to a slot value.
pub fn apply_op(op: SlotOp, x: u64, data: u64) -> (r: u64)
    ensures
        r == apply_op_spec(op, x, data),
{
    let operand = op.constant.wrapping_add(data);
    match op.kind {
        OpKind::Add => x.wrapping_add(operand),
        OpKind::Sub => x.wrapping_sub(operand),
        OpKind::Mul => x.wrapping_mul(operand),
        OpKind::Div => if operand == 0 { x } else { x / operand },
        OpKind::Nop => x,
    }
}

/// Applies a rule's slot operations to the vector in place.
pub fn apply_rule(ops: &Vec<SlotOp>, state: &mut Vec<u64>, data: u64)
    requires
        ops@.len() == old(state)@.len(),
    ensures
        final(state)@ == apply_slots(ops@, old(state)@, data),
{
    let ghost v0 = state@;
    let mut i: usize = 0;
    while i < state.len()
        invariant
            ops@.len() == v0.len(),
            state@.len() == v0.len(),
            i <= v0.len(),
            forall|j: int| 0 <= j < i ==> #[trigger] state@[j] == apply_op_spec(ops@[j], v0[j], data),
            forall|j: int| i <= j < v0.len() ==> #[trigger] state@[j] == v0[j],
        decreases v0.len() - i,
    {
        let x = apply_op(ops[i], state[i], data);
        state.set(i, x);
        i = i + 1;
    }
    assert(state@ =~= apply_slots(ops@, v0, data));
}

/// The next state identifier for a vector: the sum of its slots modulo 256.
pub fn select_next(v: &Vec<u64>) -> (r: u8)
    ensures
        r == selector(v@),
        r as int == slot_sum(v@) % 256,
{
    let mut acc: u64 = 0;
    let mut i: usize = 0;
    while i < v.len()
        invariant
            i <= v@.len(),
            acc < 256,
            acc as int == slot_sum(v@.subrange(0, i as int)) % 256,
        decreases v@.len() - i,
    {
        let ghost prev = v@.subrange(0, i as int);
        assert(v@.subrange(0, i + 1).drop_last() =~= prev);
        proof {
            lemma_add_mod_noop(slot_sum(prev), v@[i as int] as int, 256);
            lemma_add_mod_noop(acc as int, v@[i as int] as int, 256);
        }
        acc = (acc + v[i] % 256) % 256;
        i = i + 1;
    }
    assert(v@.subrange(0, v@.len() as int) =~= v@);
    acc as u8
}

} // verus!
