//! Creation of particles: the initial population, the daughters of a
//! decaying particle, and background spawning.
//!
//! Random draws come from nannou's thread-local generator. Each policy is
//! split in two: a function that draws, and a verified function that takes
//! the drawn values and builds the particles from them exactly.
use vstd::prelude::*;

use crate::fixed::{add_vec, add_vec_spec, sub_vec, sub_vec_spec, Vec3, LIMIT, ONE};
use crate::models::{states, Particle, ParticleState};

verus! {

/// Decay thresholds are drawn from `[DECAY_MIN, DECAY_MAX)`: 0.5 s to 3 s.
pub const DECAY_MIN: i64 = 500_000;

/// See `DECAY_MIN`.
pub const DECAY_MAX: i64 = 3_000_000;

/// Root charges are drawn from `[-MAX_ROOT_CHARGE, MAX_ROOT_CHARGE]`.
pub const MAX_ROOT_CHARGE: i64 = 10;

/// The deepest split tree that a root particle can carry; deeper requests
/// are capped here so that the root mass stays in range.
pub const MAX_GENERATION_DEPTH: u32 = 40;

/// Each component of the velocity kick given to daughters lies in
/// `[-SPLIT_KICK, SPLIT_KICK]`: 100 units per second.
pub const SPLIT_KICK: i64 = 100_000_000;

/// Background spawning adds this many particles per second on average.
pub const SPAWN_RATE: i64 = 1;

/// The split depth of background-spawned particles.
pub const SPAWN_DEPTH: u32 = 6;

/// The speed scale of background-spawned particles: 350 units per second.
pub const SPAWN_SPEED_SCALE: i64 = 350_000_000;

/// The mass of a root particle that can split `depth` times: `2^depth`.
pub open spec fn root_mass(depth: nat) -> int
    decreases depth,
{
    if depth == 0 {
        1
    } else {
        2 * root_mass((depth - 1) as nat)
    }
}

/// The split depth actually given for a requested one.
pub open spec fn capped_depth(depth: u32) -> nat {
    if depth <= MAX_GENERATION_DEPTH {
        depth as nat
    } else {
        MAX_GENERATION_DEPTH as nat
    }
}

/// The generation after `g`, saturating.
pub open spec fn next_generation(g: u64) -> u64 {
    if g < u64::MAX {
        (g + 1) as u64
    } else {
        g
    }
}

/// A fresh particle at the origin with a root's mass for `depth`.
pub open spec fn is_root(p: ParticleState, depth: u32) -> bool {
    &&& p.is_fresh()
    &&& p.position == Vec3::spec_zero()
    &&& p.mass == root_mass(capped_depth(depth))
    &&& p.generation == 0
    &&& -MAX_ROOT_CHARGE <= p.charge <= MAX_ROOT_CHARGE
    &&& DECAY_MIN <= p.decays_after < DECAY_MAX
}

/// What holds of every particle that `draw_root` may return.
pub open spec fn is_drawn_root(p: ParticleState, depth: u32, speed_scale: i64) -> bool {
    &&& is_root(p, depth)
    &&& -speed_scale <= p.velocity.x <= speed_scale
    &&& -speed_scale <= p.velocity.y <= speed_scale
    &&& -speed_scale <= p.velocity.z <= speed_scale
}

proof fn lemma_root_mass_mono(a: nat, b: nat)
    requires
        a <= b,
    ensures
        1 <= root_mass(a) <= root_mass(b),
    decreases b - a,
{
    if a < b {
        lemma_root_mass_mono(a, (b - 1) as nat);
    } else {
        lemma_root_mass_pos(a);
    }
}

proof fn lemma_root_mass_pos(a: nat)
    ensures
        1 <= root_mass(a),
    decreases a,
{
    if a > 0 {
        lemma_root_mass_pos((a - 1) as nat);
    }
}

/// The mass of a root particle for the split depth `depth`.
pub fn mass_for_depth(depth: u32) -> (m: i64)
    ensures
        m == root_mass(capped_depth(depth)),
        1 <= m <= LIMIT,
{
    let cap: u32 = if depth <= MAX_GENERATION_DEPTH {
        depth
    } else {
        MAX_GENERATION_DEPTH
    };
    proof {
        reveal_with_fuel(root_mass, 41);
        assert(root_mass(40) == 1_099_511_627_776);
        lemma_root_mass_mono(cap as nat, 40);
    }
    let mut m: i64 = 1;
    let mut i: u32 = 0;
    while i < cap
        invariant
            i <= cap <= 40,
            m == root_mass(i as nat),
            root_mass(40) == 1_099_511_627_776,
        decreases cap - i,
    {
        proof {
            lemma_root_mass_mono((i + 1) as nat, 40);
        }
        m = m * 2;
        i = i + 1;
    }
    m
}

/// A root particle at the origin from drawn values.
pub fn root_particle(velocity: Vec3, charge: i64, decays_after: i64, max_generation_depth: u32) -> (r: Particle)
    requires
        velocity.wf(),
        -MAX_ROOT_CHARGE <= charge <= MAX_ROOT_CHARGE,
        DECAY_MIN <= decays_after < DECAY_MAX,
    ensures
        is_root(r@, max_generation_depth),
        r.velocity == velocity,
        r.charge == charge,
        r.decays_after == decays_after,
{
    let mass = mass_for_depth(max_generation_depth);
    Particle::new(Vec3::zero(), velocity, charge, mass, decays_after, 0)
}

/// Relies on nannou::rand::random_range: a value drawn from `[lo, hi)`
/// (it panics on an empty range, hence `lo < hi`).
#[verifier::external_body]
fn random_range(lo: i64, hi: i64) -> (r: i64)
    requires
        lo < hi,
    ensures
        lo <= r < hi,
{
    nannou::rand::random_range(lo, hi)
}

/// A decay threshold drawn from `[DECAY_MIN, DECAY_MAX)`.
fn draw_decay() -> (r: i64)
    ensures
        DECAY_MIN <= r < DECAY_MAX,
{
    random_range(DECAY_MIN, DECAY_MAX)
}

/// A vector whose components are drawn from `[-bound, bound]`.
fn draw_vec(bound: i64) -> (r: Vec3)
    requires
        0 <= bound <= LIMIT,
    ensures
        r.wf(),
        -bound <= r.x <= bound,
        -bound <= r.y <= bound,
        -bound <= r.z <= bound,
{
    Vec3 {
        x: random_range(-bound, bound + 1),
        y: random_range(-bound, bound + 1),
        z: random_range(-bound, bound + 1),
    }
}

/// A root particle with a random velocity, each component in
/// `[-speed_scale, speed_scale]`, a random charge and a random decay threshold.
pub fn draw_root(max_generation_depth: u32, speed_scale: i64) -> (r: Particle)
    requires
        0 <= speed_scale <= LIMIT,
    ensures
        is_drawn_root(r@, max_generation_depth, speed_scale),
{
    let velocity = draw_vec(speed_scale);
    let charge: i64 = random_range(-MAX_ROOT_CHARGE, MAX_ROOT_CHARGE + 1);
    let decays_after: i64 = draw_decay();
    root_particle(velocity, charge, decays_after, max_generation_depth)
}

/// Builds `count` root particles by `draw_root`.
pub fn generate_particles(count: usize, max_generation_depth: u32, initial_speed_scale: i64) -> (r: Vec<Particle>)
    requires
        0 <= initial_speed_scale <= LIMIT,
    ensures
        r@.len() == count,
        forall|i: int|
            0 <= i < count ==> is_drawn_root(#[trigger] r@[i]@, max_generation_depth, initial_speed_scale),
{
    let mut r: Vec<Particle> = Vec::new();
    let mut i: usize = 0;
    while i < count
        invariant
            i <= count,
            r@.len() == i,
            0 <= initial_speed_scale <= LIMIT,
            forall|j: int|
                0 <= j < i ==> is_drawn_root(#[trigger] r@[j]@, max_generation_depth, initial_speed_scale),
        decreases count - i,
    {
        r.push(draw_root(max_generation_depth, initial_speed_scale));
        i = i + 1;
    }
    r
}

/// A daughter of `parent`: alive at the parent's position, with no elapsed
/// time, a one-point trail and the next generation.
pub open spec fn daughter_spec(
    parent: ParticleState,
    velocity: Vec3,
    charge: int,
    mass: int,
    decays_after: int,
) -> ParticleState {
    ParticleState {
        position: parent.position,
        velocity,
        charge: charge as i64,
        mass: mass as i64,
        lifetime_s: 0,
        decays_after: decays_after as i64,
        is_alive: true,
        path: seq![parent.position],
        generation: next_generation(parent.generation),
    }
}

/// The daughters of `parent` for a drawn kick and two drawn decay
/// thresholds: none when its mass is 1; otherwise two, that share its mass
/// (half, rounded down, and the rest), move with its velocity plus and minus
/// the kick, and carry its charge and the opposite charge.
pub open spec fn daughters_spec(parent: ParticleState, kick: Vec3, decay_a: int, decay_b: int) -> Seq<
    ParticleState,
> {
    if parent.mass <= 1 {
        seq![]
    } else {
        seq![
            daughter_spec(parent, add_vec_spec(parent.velocity, kick), parent.charge as int, parent.mass / 2, decay_a),
            daughter_spec(parent, sub_vec_spec(parent.velocity, kick), -parent.charge, parent.mass - parent.mass / 2, decay_b),
        ]
    }
}

/// What holds of the daughters of a split, whatever was drawn.
pub open spec fn is_split_of(parent: ParticleState, ds: Seq<ParticleState>) -> bool {
    &&& parent.mass <= 1 ==> ds.len() == 0
    &&& parent.mass > 1 ==> {
        &&& ds.len() == 2
        &&& ds[0].mass + ds[1].mass == parent.mass
        &&& ds[0].charge == parent.charge
        &&& ds[1].charge == -parent.charge
    }
    &&& forall|i: int|
        0 <= i < ds.len() ==> {
            &&& (#[trigger] ds[i]).is_fresh()
            &&& ds[i].mass >= 1
            &&& ds[i].position == parent.position
            &&& ds[i].generation == next_generation(parent.generation)
            &&& DECAY_MIN <= ds[i].decays_after < DECAY_MAX
        }
}

/// The daughters of `parent` for a given kick and decay thresholds.
pub fn daughters(parent: &Particle, kick: Vec3, decay_a: i64, decay_b: i64) -> (r: Vec<Particle>)
    requires
        parent@.wf(),
        kick.wf(),
        DECAY_MIN <= decay_a < DECAY_MAX,
        DECAY_MIN <= decay_b < DECAY_MAX,
    ensures
        states(r@) == daughters_spec(parent@, kick, decay_a as int, decay_b as int),
        is_split_of(parent@, states(r@)),
{
    let mut r: Vec<Particle> = Vec::new();
    if parent.mass <= 1 {
        proof {
            assert(states(r@) =~= daughters_spec(parent@, kick, decay_a as int, decay_b as int));
        }
        return r;
    }
    let generation: u64 = if parent.generation < u64::MAX {
        parent.generation + 1
    } else {
        parent.generation
    };
    let half: i64 = parent.mass / 2;
    let a = Particle::new(
        parent.position,
        add_vec(&parent.velocity, &kick),
        parent.charge,
        half,
        decay_a,
        generation,
    );
    let b = Particle::new(
        parent.position,
        sub_vec(&parent.velocity, &kick),
        -parent.charge,
        parent.mass - half,
        decay_b,
        generation,
    );
    r.push(a);
    r.push(b);
    proof {
        assert(states(r@) =~= daughters_spec(parent@, kick, decay_a as int, decay_b as int));
    }
    r
}

/// Splits a decaying particle: draws a kick, each component in
/// `[-SPLIT_KICK, SPLIT_KICK]`, and two decay thresholds, and builds the
/// daughters by `daughters`.
pub fn split_particle(parent: &Particle) -> (r: Vec<Particle>)
    requires
        parent@.wf(),
    ensures
        is_split_of(parent@, states(r@)),
{
    let kick = draw_vec(SPLIT_KICK);
    let decay_a = draw_decay();
    let decay_b = draw_decay();
    daughters(parent, kick, decay_a, decay_b)
}

/// The expected number of particles spawned in `elapsed`, rounded down.
pub open spec fn spawn_floor(elapsed: int) -> int {
    (SPAWN_RATE * elapsed) / (ONE as int)
}

/// The expected number of particles spawned in `elapsed`, rounded up.
pub open spec fn spawn_ceil(elapsed: int) -> int {
    if (SPAWN_RATE * elapsed) % (ONE as int) == 0 {
        spawn_floor(elapsed)
    } else {
        spawn_floor(elapsed) + 1
    }
}

/// The number of particles to spawn in `elapsed`, for a value `draw` drawn
/// from `[0, ONE)`: the whole part of `SPAWN_RATE * elapsed`, plus one more
/// when `draw` falls under its fractional part, so that the expected count
/// is exactly `SPAWN_RATE * elapsed`.
pub open spec fn spawn_count_spec(elapsed: int, draw: int) -> int {
    if draw < (SPAWN_RATE * elapsed) % (ONE as int) {
        spawn_floor(elapsed) + 1
    } else {
        spawn_floor(elapsed)
    }
}

/// The number of particles to spawn in `elapsed` for the value `draw`.
pub fn spawn_count(elapsed: i64, draw: i64) -> (n: usize)
    requires
        0 <= elapsed <= LIMIT,
        0 <= draw < ONE,
    ensures
        n == spawn_count_spec(elapsed as int, draw as int),
        spawn_floor(elapsed as int) <= n <= spawn_ceil(elapsed as int),
{
    let expected: i64 = SPAWN_RATE * elapsed;
    let whole: i64 = expected / ONE;
    let frac: i64 = expected % ONE;
    proof {
        assert(whole <= 1_000_000_000) by (nonlinear_arith)
            requires
                whole == expected / 1_000_000,
                0 <= expected <= 1_000_000_000_000_000,
        ;
    }
    if draw < frac {
        (whole + 1) as usize
    } else {
        whole as usize
    }
}

/// What holds of the population after background spawning in `elapsed`,
/// whatever was drawn: the particles already there stay as they were, and
/// between the rounded-down and rounded-up expected count of new roots
/// follow them.
pub open spec fn is_spawn_of(before: Seq<ParticleState>, after: Seq<ParticleState>, elapsed: int) -> bool {
    &&& after.len() >= before.len()
    &&& after.subrange(0, before.len() as int) == before
    &&& spawn_floor(elapsed) <= after.len() - before.len() <= spawn_ceil(elapsed)
    &&& forall|i: int|
        before.len() <= i < after.len() ==> is_drawn_root(#[trigger] after[i], SPAWN_DEPTH, SPAWN_SPEED_SCALE)
}

/// Appends background-spawned root particles for `elapsed`; how many is
/// decided by `spawn_count` on a value drawn from `[0, ONE)`.
pub fn maybe_add_particles(elapsed: i64, particles: &mut Vec<Particle>)
    requires
        0 <= elapsed <= LIMIT,
    ensures
        is_spawn_of(states(old(particles)@), states(final(particles)@), elapsed as int),
{
    let draw: i64 = random_range(0, ONE);
    let n: usize = spawn_count(elapsed, draw);
    let ghost before = particles@;
    let mut i: usize = 0;
    while i < n
        invariant
            i <= n,
            particles@.len() == before.len() + i,
            particles@.subrange(0, before.len() as int) == before,
            forall|j: int|
                before.len() <= j < particles@.len() ==> is_drawn_root(
                    #[trigger] particles@[j]@,
                    SPAWN_DEPTH,
                    SPAWN_SPEED_SCALE,
                ),
        decreases n - i,
    {
        let p = draw_root(SPAWN_DEPTH, SPAWN_SPEED_SCALE);
        let ghost prev = particles@;
        particles.push(p);
        proof {
            assert(particles@.subrange(0, before.len() as int) =~= prev.subrange(0, before.len() as int));
        }
        i = i + 1;
    }
    proof {
        assert(states(particles@).subrange(0, before.len() as int) =~= states(before));
    }
}

} // verus!
