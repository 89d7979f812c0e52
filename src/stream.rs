use vstd::prelude::*;
use rand::rngs::StdRng;
use rand::{Rng, SeedableRng};
use crate::rules::{draw_count, rules_of, RuleSet};

verus! {

#[verifier::external_type_specification]
#[verifier::external_body]
pub struct ExStdRng(rand::rngs::StdRng);

/// Relies on rand's `SeedableRng::seed_from_u64` for `StdRng`: a generator whose
/// stream is fixed by the seed.
#[verifier::external_body]
fn seed_stream(seed: u64) -> (r: StdRng) {
    StdRng::seed_from_u64(seed)
}

/// Relies on rand's `Rng::gen_range` for `u64`, which returns a value in `[low, high)`
/// and panics only when `low >= high`.
#[verifier::external_body]
fn draw_u64_in(rng: &mut StdRng, low: u64, high: u64) -> (r: u64)
    requires
        low < high,
    ensures
        low <= r < high,
{
    rng.gen_range(low, high)
}

/// Relies on rand's `Rng::gen_range` for `i32`, which returns a value in `[0, n)`
/// and panics only when `n <= 0`.
#[verifier::external_body]
fn draw_i32_below(rng: &mut StdRng, n: u32) -> (r: u32)
    requires
        0 < n <= i32::MAX,
    ensures
        r < n,
{
    rng.gen_range(0i32, n as i32) as u32
}

/// Relies on rand's `Rng::gen_range` for `usize`, which returns a value in `[0, n)`
/// and panics only when `n == 0`.
#[verifier::external_body]
fn draw_usize_below(rng: &mut StdRng, n: usize) -> (r: usize)
    requires
        0 < n,
    ensures
        r < n,
{
    rng.gen_range(0usize, n)
}

/// Relies on rand's `Rng::gen` for `u64`: any value may come out.
#[verifier::external_body]
fn draw_word(rng: &mut StdRng) -> (r: u64) {
    rng.gen::<u64>()
}

/// A new generator whose stream is fixed by `seed`.
pub fn new_stream(seed: u64) -> StdRng {
    seed_stream(seed)
}

/// The draws that generation may take: constants in `[1, 2^64 - 2]` at even
/// positions, operation choices in `0..5` at odd ones.
pub open spec fn valid_draws(size: nat, d: Seq<u64>) -> bool {
    &&& d.len() == draw_count(size)
    &&& forall|j: int| 0 <= j < d.len() ==> (#[trigger] d[j]) < (if j % 2 == 0 { u64::MAX } else { 5 })
    &&& forall|j: int| 0 <= j < d.len() && j % 2 == 0 ==> 1 <= #[trigger] d[j]
}

/// Draws, from `rng`, a constant and an operation choice for each slot of each live
/// state in turn.
pub fn draw_rule_stream(rng: &mut StdRng, size: usize) -> (d: Vec<u64>)
    requires
        size <= usize::MAX / 510,
    ensures
        valid_draws(size as nat, d@),
{
    let half: usize = 255 * size;
    let total: usize = 2 * half;
    let mut d: Vec<u64> = Vec::new();
    while d.len() < total
        invariant
            total == draw_count(size as nat),
            total % 2 == 0,
            d@.len() <= total,
            d@.len() % 2 == 0,
            forall|j: int| 0 <= j < d@.len() ==> (#[trigger] d@[j]) < (if j % 2 == 0 { u64::MAX } else { 5 }),
            forall|j: int| 0 <= j < d@.len() && j % 2 == 0 ==> 1 <= #[trigger] d@[j],
        decreases total - d@.len(),
    {
        let c = draw_u64_in(rng, 1, u64::MAX);
        let k = draw_i32_below(rng, 5);
        d.push(c);
        d.push(k as u64);
    }
    d
}

/// Generates the rules of one vector size from `rng`.
pub fn generate_rules(rng: &mut StdRng, size: usize) -> (r: RuleSet)
    requires
        size <= usize::MAX / 510,
    ensures
        r.wf(),
        r.size == size,
        exists|d: Seq<u64>| valid_draws(size as nat, d) && r@ == rules_of(size as nat, d),
{
    let d = draw_rule_stream(rng, size);
    RuleSet::from_draws(size, &d)
}

/// Generates the rules of one vector size from a fresh generator seeded with `seed`.
pub fn generate(seed: u64, size: usize) -> (r: RuleSet)
    requires
        size <= usize::MAX / 510,
    ensures
        r.wf(),
        r.size == size,
        exists|d: Seq<u64>| valid_draws(size as nat, d) && r@ == rules_of(size as nat, d),
{
    let mut rng = seed_stream(seed);
    generate_rules(&mut rng, size)
}

/// The vector size that a draw from `0..4` selects.
pub open spec fn size_of_choice(k: u32) -> usize {
    if k == 0 {
        4
    } else if k == 1 {
        8
    } else if k == 2 {
        16
    } else {
        32
    }
}

/// The vector size that a draw from `0..4` selects: 4, 8, 16, or 32 otherwise.
pub fn choice_to_size(k: u32) -> (r: usize)
    ensures
        r == size_of_choice(k),
{
    if k == 0 {
        4
    } else if k == 1 {
        8
    } else if k == 2 {
        16
    } else {
        32
    }
}

/// Draws one of the four vector sizes.
pub fn random_size(rng: &mut StdRng) -> (r: usize)
    ensures
        r == 4 || r == 8 || r == 16 || r == 32,
{
    let k = draw_i32_below(rng, 4);
    choice_to_size(k)
}

/// Draws an initial vector of `size` slots, each uniform over `u64`.
pub fn random_vector(rng: &mut StdRng, size: usize) -> (v: Vec<u64>)
    ensures
        v@.len() == size,
{
    let mut v: Vec<u64> = Vec::new();
    while v.len() < size
        invariant
            v@.len() <= size,
        decreases size - v@.len(),
    {
        v.push(draw_word(rng));
    }
    v
}

/// Draws `len` input values, each uniform over `u64`.
pub fn random_inputs(rng: &mut StdRng, len: usize) -> (v: Vec<u64>)
    ensures
        v@.len() == len,
{
    random_vector(rng, len)
}

/// Draws `len` machine indices, each below `count`.
pub fn random_indices(rng: &mut StdRng, len: usize, count: usize) -> (v: Vec<usize>)
    requires
        0 < count,
    ensures
        v@.len() == len,
        forall|j: int| 0 <= j < len ==> #[trigger] v@[j] < count,
{
    let mut v: Vec<usize> = Vec::new();
    while v.len() < len
        invariant
            0 < count,
            v@.len() <= len,
            forall|j: int| 0 <= j < v@.len() ==> #[trigger] v@[j] < count,
        decreases len - v@.len(),
    {
        v.push(draw_usize_below(rng, count));
    }
    v
}

} // verus!
