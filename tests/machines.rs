use fsm_dispatch::machine::{drive_inputs, EnumFsm, Fsm, FsmState, HybridFsm, ProcTable};
use fsm_dispatch::rules::{
    apply_op, choice_to_kind, select_next, OpKind, RuleSet, SlotOp, LIVE_STATES, TRAP,
};
use fsm_dispatch::stats::{calc_mean_std, floor_sqrt};
use fsm_dispatch::stream::{
    choice_to_size, generate, generate_rules, new_stream, random_indices, random_size,
    random_vector,
};

fn same_rules(a: &RuleSet, b: &RuleSet) -> bool {
    a.size == b.size
        && a.rules.len() == b.rules.len()
        && a.rules.iter().zip(b.rules.iter()).all(|(x, y)| x.slots == y.slots)
}

#[test]
fn generation_is_deterministic() {
    for &size in &[4usize, 8, 16, 32] {
        let a = generate(7, size);
        let b = generate(7, size);
        assert!(same_rules(&a, &b));
        assert_eq!(a.rules.len(), LIVE_STATES);
        assert!(a.rules.iter().all(|r| r.slots.len() == size));
    }
}

#[test]
fn different_seeds_give_different_rules() {
    let a = generate(1, 8);
    let b = generate(2, 8);
    assert!(!same_rules(&a, &b));
}

#[test]
fn generated_constants_in_range() {
    let r = generate(99, 32);
    for rule in &r.rules {
        for op in &rule.slots {
            assert!(op.constant >= 1 && op.constant <= u64::MAX - 1);
        }
    }
}

#[test]
fn from_draws_follows_draw_order() {
    let size = 2usize;
    let mut draws = Vec::new();
    for j in 0..(510 * size) as u64 {
        draws.push(1000 + j);
    }
    draws[1] = 0;
    draws[3] = 3;
    draws[5] = 4;
    let r = RuleSet::from_draws(size, &draws);
    assert_eq!(r.rules[0].slots[0], SlotOp { kind: OpKind::Add, constant: 1000 });
    assert_eq!(r.rules[0].slots[1], SlotOp { kind: OpKind::Div, constant: 1002 });
    assert_eq!(r.rules[1].slots[0], SlotOp { kind: OpKind::Nop, constant: 1004 });
    assert_eq!(r.rules[254].slots[1].constant, 1000 + 2 * (254 * 2 + 1));
}

#[test]
fn op_kinds_roughly_uniform() {
    let mut counts = [0usize; 5];
    for &size in &[4usize, 8, 16, 32] {
        let r = generate(42, size);
        for rule in &r.rules {
            for op in &rule.slots {
                let k = match op.kind {
                    OpKind::Add => 0,
                    OpKind::Sub => 1,
                    OpKind::Mul => 2,
                    OpKind::Div => 3,
                    OpKind::Nop => 4,
                };
                counts[k] += 1;
            }
        }
    }
    let total: usize = counts.iter().sum();
    assert_eq!(total, 255 * 60);
    for &c in &counts {
        let share = c as f64 / total as f64;
        assert!(share > 0.17 && share < 0.23, "share {}", share);
    }
}

#[test]
fn choice_mapping() {
    assert_eq!(choice_to_kind(0), OpKind::Add);
    assert_eq!(choice_to_kind(1), OpKind::Sub);
    assert_eq!(choice_to_kind(2), OpKind::Mul);
    assert_eq!(choice_to_kind(3), OpKind::Div);
    assert_eq!(choice_to_kind(4), OpKind::Nop);
    assert_eq!(choice_to_size(0), 4);
    assert_eq!(choice_to_size(1), 8);
    assert_eq!(choice_to_size(2), 16);
    assert_eq!(choice_to_size(3), 32);
}

#[test]
fn slot_operations_wrap() {
    let add = SlotOp { kind: OpKind::Add, constant: 5 };
    assert_eq!(apply_op(add, u64::MAX, 1), 5);
    let sub = SlotOp { kind: OpKind::Sub, constant: 2 };
    assert_eq!(apply_op(sub, 1, 0), u64::MAX);
    let mul = SlotOp { kind: OpKind::Mul, constant: 3 };
    assert_eq!(apply_op(mul, 1u64 << 63, 1), 0);
    let div = SlotOp { kind: OpKind::Div, constant: 4 };
    assert_eq!(apply_op(div, 100, 1), 20);
    let nop = SlotOp { kind: OpKind::Nop, constant: 4 };
    assert_eq!(apply_op(nop, 100, 1), 100);
}

#[test]
fn division_by_wrapped_zero_keeps_slot() {
    let div = SlotOp { kind: OpKind::Div, constant: u64::MAX };
    assert_eq!(apply_op(div, 77, 1), 77);
}

#[test]
fn selector_sums_modulo_256() {
    assert_eq!(select_next(&vec![]), 0);
    assert_eq!(select_next(&vec![255]), 255);
    assert_eq!(select_next(&vec![200, 100]), 44);
    assert_eq!(select_next(&vec![u64::MAX, 1]), 0);
    assert_eq!(select_next(&vec![u64::MAX, u64::MAX, 3]), 1);
}

fn drive_all(rules: &RuleSet, init: Vec<u64>, inputs: &[u64]) -> (u8, Vec<u64>) {
    let table = ProcTable::from_rules(rules);
    let mut a = FsmState::new(&table, init.clone());
    let mut b: Box<dyn Fsm + '_> = Box::new(HybridFsm::new(&table, init.clone()));
    let mut b_view = HybridFsm::new(&table, init.clone());
    let mut c = EnumFsm::new(rules, init);
    for &d in inputs {
        a.drive(d);
        b.drive(d);
        b_view.drive(d);
        c.drive(d);
        assert_eq!(a.current(), c.current());
        assert_eq!(b_view.current(), c.current());
        assert_eq!(a.slots(), c.slots());
        assert_eq!(b_view.slots(), c.slots());
    }
    (c.current(), c.slots().clone())
}

#[test]
fn end_to_end_seed_42() {
    let rules = generate(42, 4);
    let (id, v) = drive_all(&rules, vec![0, 0, 0, 0], &[1, 2, 3]);
    assert_eq!(v.len(), 4);
    assert_eq!(id as u64, v.iter().fold(0u64, |a, x| a.wrapping_add(*x)) % 256);
}

#[test]
fn representations_agree_on_long_runs() {
    for &size in &[4usize, 8, 16, 32] {
        let rules = generate(5, size);
        let mut rng = new_stream(11);
        let init = random_vector(&mut rng, size);
        let inputs = random_vector(&mut rng, 2000);
        drive_all(&rules, init, &inputs);
    }
}

#[test]
fn trap_absorbs() {
    let size = 4usize;
    let mut draws = vec![1u64; 510 * size];
    for j in 0..255 * size {
        draws[2 * j] = 255;
        draws[2 * j + 1] = 4;
    }
    draws[1] = 0;
    let rules = RuleSet::from_draws(size, &draws);
    let table = ProcTable::from_rules(&rules);
    let mut a = FsmState::new(&table, vec![0, 0, 0, 0]);
    let mut c = EnumFsm::new(&rules, vec![0, 0, 0, 0]);
    a.drive(0);
    c.drive(0);
    assert_eq!(c.current(), TRAP);
    assert_eq!(a.current(), TRAP);
    assert_eq!(c.slots(), &vec![255, 0, 0, 0]);
    for d in [0u64, 1, 12345, u64::MAX] {
        a.drive(d);
        c.drive(d);
        assert_eq!(c.current(), TRAP);
        assert_eq!(a.current(), TRAP);
        assert_eq!(c.slots(), &vec![255, 0, 0, 0]);
        assert_eq!(a.slots(), &vec![255, 0, 0, 0]);
    }
}

#[test]
fn selector_stays_in_range() {
    let rules = generate(3, 16);
    let table = ProcTable::from_rules(&rules);
    let mut rng = new_stream(4);
    let mut m = FsmState::new(&table, random_vector(&mut rng, 16));
    for d in random_vector(&mut rng, 5000) {
        m.drive(d);
        assert!(m.current() as usize <= LIVE_STATES);
    }
}

#[test]
fn harness_draws() {
    let mut rng = new_stream(42);
    for _ in 0..100 {
        let s = random_size(&mut rng);
        assert!(s == 4 || s == 8 || s == 16 || s == 32);
        assert_eq!(random_vector(&mut rng, s).len(), s);
    }
    let idxs = random_indices(&mut rng, 1000, 256);
    assert_eq!(idxs.len(), 1000);
    assert!(idxs.iter().all(|&i| i < 256));
    let mut r1 = new_stream(8);
    let mut r2 = new_stream(8);
    assert!(same_rules(&generate_rules(&mut r1, 4), &generate_rules(&mut r2, 4)));
}

#[test]
fn single_sample_has_zero_deviation() {
    assert_eq!(calc_mean_std(&vec![1234]), Some((1234, 0)));
}

#[test]
fn mean_and_deviation() {
    assert_eq!(calc_mean_std(&vec![]), None);
    assert_eq!(calc_mean_std(&vec![2, 4, 4, 4, 5, 5, 7, 9]), Some((5, 2)));
    assert_eq!(calc_mean_std(&vec![1, 2]), Some((1, 0)));
    assert_eq!(calc_mean_std(&vec![10, 20, 30]), Some((20, 8)));
    assert_eq!(calc_mean_std(&vec![0, u64::MAX, 0, u64::MAX, 0]), None);
}

#[test]
fn square_roots() {
    assert_eq!(floor_sqrt(0), 0);
    assert_eq!(floor_sqrt(15), 3);
    assert_eq!(floor_sqrt(16), 4);
    assert_eq!(floor_sqrt(u128::MAX), u64::MAX);
}

#[test]
fn end_to_end_seed_42_in_one_call() {
    let rules = generate(42, 4);
    let table = ProcTable::from_rules(&rules);
    let inputs = vec![1u64, 2, 3];
    let mut a = FsmState::new(&table, vec![0, 0, 0, 0]);
    let mut b = HybridFsm::new(&table, vec![0, 0, 0, 0]);
    let mut c = EnumFsm::new(&rules, vec![0, 0, 0, 0]);
    drive_inputs(&mut a, &inputs);
    drive_inputs(&mut b, &inputs);
    drive_inputs(&mut c, &inputs);
    assert_eq!((a.current(), a.slots()), (c.current(), c.slots()));
    assert_eq!((b.current(), b.slots()), (c.current(), c.slots()));
    let (id, v) = drive_all(&rules, vec![0, 0, 0, 0], &inputs);
    assert_eq!((id, &v), (c.current(), c.slots()));
    assert_ne!(v, vec![0, 0, 0, 0]);
}
