use vstd::prelude::*;
use crate::rules::{
    apply_rule, apply_slots, run, select_next, selector, step, RuleSet, SlotOp, TransitionRule,
    LIVE_STATES, TRAP,
};

verus! {

/// A machine that mutates its vector and moves to a new state on every input.
pub trait Fsm {
    /// The current state identifier.
    spec fn state_id(&self) -> u8;

    /// The current state vector.
    spec fn vector(&self) -> Seq<u64>;

    /// The rules of the live states that this machine follows.
    spec fn rule_table(&self) -> Seq<Seq<SlotOp>>;

    /// The machine's internal invariant.
    spec fn inv(&self) -> bool;

    /// Applies the current state's rule to the vector and moves to the selected state.
    fn drive(&mut self, data: u64)
        requires
            old(self).inv(),
        ensures
            final(self).inv(),
            final(self).rule_table() == old(self).rule_table(),
            (final(self).state_id(), final(self).vector()) == step(
                old(self).rule_table(),
                old(self).state_id(),
                old(self).vector(),
                data,
            ),
    ;
}

/// Drives a machine with each input in turn.
pub fn drive_inputs<M: Fsm>(m: &mut M, inputs: &Vec<u64>)
    requires
        old(m).inv(),
    ensures
        final(m).inv(),
        final(m).rule_table() == old(m).rule_table(),
        (final(m).state_id(), final(m).vector()) == run(
            old(m).rule_table(),
            old(m).state_id(),
            old(m).vector(),
            inputs@,
        ),
{
    let ghost rules = m.rule_table();
    let ghost id0 = m.state_id();
    let ghost v0 = m.vector();
    let mut i: usize = 0;
    while i < inputs.len()
        invariant
            i <= inputs@.len(),
            m.inv(),
            m.rule_table() == rules,
            (m.state_id(), m.vector()) == run(rules, id0, v0, inputs@.subrange(0, i as int)),
        decreases inputs@.len() - i,
    {
        assert(inputs@.subrange(0, i + 1).drop_last() =~= inputs@.subrange(0, i as int));
        m.drive(inputs[i]);
        i = i + 1;
    }
    assert(inputs@.subrange(0, inputs@.len() as int) =~= inputs@);
}

/// The code that runs for one state: a rule's slot operations followed by the
/// selector, or the trap, which does nothing.
pub enum Procedure {
    Step(TransitionRule),
    Trap,
}

/// The procedures of all states, indexed by state identifier; the trap comes last.
pub struct ProcTable {
    pub procs: Vec<Procedure>,
}

/// What calling procedure `p` does to a vector: the next procedure index and the new vector.
pub open spec fn call_spec(p: Procedure, r: usize, v: Seq<u64>, data: u64) -> (usize, Seq<u64>) {
    match p {
        Procedure::Step(rule) => {
            let w = apply_slots(rule.slots@, v, data);
            (selector(w) as usize, w)
        },
        Procedure::Trap => (r, v),
    }
}

/// The rule that table entry `n` holds (empty for the trap).
pub open spec fn proc_rule(p: Procedure) -> Seq<SlotOp> {
    match p {
        Procedure::Step(rule) => rule.slots@,
        Procedure::Trap => Seq::empty(),
    }
}

/// The procedure index and vector after calling through the table once per input.
pub open spec fn table_run(procs: Seq<Procedure>, r: usize, v: Seq<u64>, inputs: Seq<u64>) -> (usize, Seq<u64>)
    decreases inputs.len(),
{
    if inputs.len() == 0 {
        (r, v)
    } else {
        let (r2, v2) = table_run(procs, r, v, inputs.drop_last());
        call_spec(procs[r2 as int], r2, v2, inputs.last())
    }
}

impl ProcTable {
    /// The rules of the live-state procedures.
    pub open spec fn rules(&self) -> Seq<Seq<SlotOp>> {
        Seq::new(LIVE_STATES as nat, |n: int| proc_rule(self.procs@[n]))
    }

    /// One procedure per state identifier: a rule of `size` slots for each live state,
    /// and the trap at the last index.
    pub open spec fn wf(&self, size: nat) -> bool {
        &&& self.procs@.len() == LIVE_STATES + 1
        &&& self.procs@[LIVE_STATES as int] is Trap
        &&& forall|n: int|
            0 <= n < LIVE_STATES ==> match #[trigger] self.procs@[n] {
                Procedure::Step(rule) => rule.slots@.len() == size,
                Procedure::Trap => false,
            }
    }

    /// Builds the table of procedures for a rule set.
    pub fn from_rules(rules: &RuleSet) -> (t: ProcTable)
        requires
            rules.wf(),
        ensures
            t.wf(rules.size as nat),
            t.rules() == rules@,
    {
        let mut procs: Vec<Procedure> = Vec::new();
        let mut n: usize = 0;
        while n < LIVE_STATES
            invariant
                rules.wf(),
                n <= LIVE_STATES,
                procs@.len() == n,
                forall|m: int|
                    0 <= m < n ==> match #[trigger] procs@[m] {
                        Procedure::Step(rule) => rule.slots@ == rules@[m],
                        Procedure::Trap => false,
                    },
            decreases LIVE_STATES - n,
        {
            procs.push(Procedure::Step(rules.rules[n].duplicate()));
            n = n + 1;
        }
        procs.push(Procedure::Trap);
        let t = ProcTable { procs };
        assert forall|n: int| 0 <= n < LIVE_STATES implies match #[trigger] t.procs@[n] {
            Procedure::Step(rule) => rule.slots@.len() == rules.size,
            Procedure::Trap => false,
        } by {
            assert(rules.rules@[n].slots@.len() == rules.size);
        }
        assert(t.rules() =~= rules@);
        t
    }

    /// Calls procedure `*f`, which mutates the vector and overwrites `*f` with the next
    /// procedure's index.
    pub fn call(&self, f: &mut usize, state: &mut Vec<u64>, data: u64)
        requires
            self.wf(old(state)@.len()),
            *old(f) <= LIVE_STATES,
        ensures
            (*final(f), final(state)@) == call_spec(self.procs@[*old(f) as int], *old(f), old(state)@, data),
            *final(f) <= LIVE_STATES,
    {
        match &self.procs[*f] {
            Procedure::Step(rule) => {
                apply_rule(&rule.slots, state, data);
                *f = select_next(state) as usize;
            },
            Procedure::Trap => {},
        }
    }
}

/// Calling through a table built from a rule set does what matching on the state
/// identifier does: for every state, vector and input, the same next state and vector.
pub proof fn lemma_call_matches_step(t: ProcTable, rules: Seq<Seq<SlotOp>>, r: usize, v: Seq<u64>, data: u64)
    requires
        t.wf(v.len()),
        t.rules() == rules,
        r <= LIVE_STATES,
    ensures
        call_spec(t.procs@[r as int], r, v, data).0 <= LIVE_STATES,
        call_spec(t.procs@[r as int], r, v, data).0 as u8 == step(rules, r as u8, v, data).0,
        call_spec(t.procs@[r as int], r, v, data).1 == step(rules, r as u8, v, data).1,
{
    if r < LIVE_STATES {
        assert(proc_rule(t.procs@[r as int]) == t.rules()[r as int]);
    }
}

/// The function-table machine and the tagged-union machine, started from the same
/// state and vector with tables built from the same rule set, agree after every
/// prefix of any input sequence.
pub proof fn lemma_representations_agree(
    t: ProcTable,
    rules: Seq<Seq<SlotOp>>,
    r: usize,
    v: Seq<u64>,
    inputs: Seq<u64>,
)
    requires
        t.wf(v.len()),
        t.rules() == rules,
        r <= LIVE_STATES,
    ensures
        table_run(t.procs@, r, v, inputs).0 <= LIVE_STATES,
        table_run(t.procs@, r, v, inputs).0 as u8 == run(rules, r as u8, v, inputs).0,
        table_run(t.procs@, r, v, inputs).1 == run(rules, r as u8, v, inputs).1,
        table_run(t.procs@, r, v, inputs).1.len() == v.len(),
    decreases inputs.len(),
{
    if inputs.len() > 0 {
        lemma_representations_agree(t, rules, r, v, inputs.drop_last());
        let (r2, v2) = table_run(t.procs@, r, v, inputs.drop_last());
        lemma_call_matches_step(t, rules, r2, v2, inputs.last());
    }
}

/// The function-table machine: the index of its current procedure and its vector.
pub struct FsmState<'a> {
    table: &'a ProcTable,
    f: usize,
    state: Vec<u64>,
}

impl<'a> FsmState<'a> {
    /// A machine in state 0 with the given vector.
    pub fn new(table: &'a ProcTable, initial: Vec<u64>) -> (m: FsmState<'a>)
        requires
            table.wf(initial@.len()),
        ensures
            m.inv(),
            m.state_id() == 0,
            m.vector() == initial@,
            m.rule_table() == table.rules(),
    {
        FsmState { table, f: 0, state: initial }
    }

    /// The current state identifier.
    pub fn current(&self) -> (r: u8)
        requires
            self.inv(),
        ensures
            r == self.state_id(),
    {
        self.f as u8
    }

    /// The current state vector.
    pub fn slots(&self) -> (r: &Vec<u64>)
        ensures
            r@ == self.vector(),
    {
        &self.state
    }
}

impl<'a> Fsm for FsmState<'a> {
    closed spec fn state_id(&self) -> u8 {
        self.f as u8
    }

    closed spec fn vector(&self) -> Seq<u64> {
        self.state@
    }

    closed spec fn rule_table(&self) -> Seq<Seq<SlotOp>> {
        self.table.rules()
    }

    closed spec fn inv(&self) -> bool {
        self.table.wf(self.state@.len()) && self.f <= LIVE_STATES
    }

    fn drive(&mut self, data: u64) {
        let table = self.table;
        table.call(&mut self.f, &mut self.state, data);
    }
}

/// The interface-wrapped machine: the same procedure table, reached only through [`Fsm`].
pub struct HybridFsm<'a> {
    f: usize,
    state: Vec<u64>,
    table: &'a ProcTable,
}

impl<'a> HybridFsm<'a> {
    /// A machine in state 0 with the given vector.
    pub fn new(table: &'a ProcTable, initial: Vec<u64>) -> (m: HybridFsm<'a>)
        requires
            table.wf(initial@.len()),
        ensures
            m.inv(),
            m.state_id() == 0,
            m.vector() == initial@,
            m.rule_table() == table.rules(),
    {
        HybridFsm { f: 0, state: initial, table }
    }

    /// The current state identifier.
    pub fn current(&self) -> (r: u8)
        requires
            self.inv(),
        ensures
            r == self.state_id(),
    {
        self.f as u8
    }

    /// The current state vector.
    pub fn slots(&self) -> (r: &Vec<u64>)
        ensures
            r@ == self.vector(),
    {
        &self.state
    }
}

impl<'a> Fsm for HybridFsm<'a> {
    closed spec fn state_id(&self) -> u8 {
        self.f as u8
    }

    closed spec fn vector(&self) -> Seq<u64> {
        self.state@
    }

    closed spec fn rule_table(&self) -> Seq<Seq<SlotOp>> {
        self.table.rules()
    }

    closed spec fn inv(&self) -> bool {
        self.table.wf(self.state@.len()) && self.f <= LIVE_STATES
    }

    fn drive(&mut self, data: u64) {
        let table = self.table;
        table.call(&mut self.f, &mut self.state, data);
    }
}

/// The tagged-union machine: a state identifier and a vector, dispatched by matching
/// on the identifier.
pub struct EnumFsm<'a> {
    id: u8,
    state: Vec<u64>,
    rules: &'a RuleSet,
}

impl<'a> EnumFsm<'a> {
    /// A machine in state 0 with the given vector.
    pub fn new(rules: &'a RuleSet, initial: Vec<u64>) -> (m: EnumFsm<'a>)
        requires
            rules.wf(),
            rules.size == initial@.len(),
        ensures
            m.inv(),
            m.state_id() == 0,
            m.vector() == initial@,
            m.rule_table() == rules@,
    {
        EnumFsm { id: 0, state: initial, rules }
    }

    /// The current state identifier.
    pub fn current(&self) -> (r: u8)
        ensures
            r == self.state_id(),
    {
        self.id
    }

    /// The current state vector.
    pub fn slots(&self) -> (r: &Vec<u64>)
        ensures
            r@ == self.vector(),
    {
        &self.state
    }
}

impl<'a> Fsm for EnumFsm<'a> {
    closed spec fn state_id(&self) -> u8 {
        self.id
    }

    closed spec fn vector(&self) -> Seq<u64> {
        self.state@
    }

    closed spec fn rule_table(&self) -> Seq<Seq<SlotOp>> {
        self.rules@
    }

    closed spec fn inv(&self) -> bool {
        self.rules.wf() && self.rules.size == self.state@.len()
    }

    fn drive(&mut self, data: u64) {
        if self.id < TRAP {
            let rules = self.rules;
            apply_rule(&rules.rules[self.id as usize].slots, &mut self.state, data);
            self.id = select_next(&self.state);
        }
    }
}

} // verus!
