//! The per-frame update of a whole population, and the model that a host
//! shell keeps between frames.
use vstd::prelude::*;

use crate::fixed::{Vec3, LIMIT};
use crate::gen::{generate_particles, is_drawn_root, is_spawn_of, is_split_of, maybe_add_particles, split_particle};
use crate::models::{states, Chamber, Particle, ParticleState};
use crate::sim::{splits_spec, step_particle, step_spec};

verus! {

/// The stepped particles of `s` whose trail is not empty, in order.
pub open spec fn survivors(s: Seq<ParticleState>, c: Chamber, dt: int) -> Seq<ParticleState>
    decreases s.len(),
{
    if s.len() == 0 {
        seq![]
    } else {
        let rest = survivors(s.drop_last(), c, dt);
        let q = step_spec(s.last(), c, dt);
        if q.path.len() > 0 {
            rest.push(q)
        } else {
            rest
        }
    }
}

/// How many particles of `s` split in a step of `dt`.
pub open spec fn n_splits(s: Seq<ParticleState>, c: Chamber, dt: int) -> nat
    decreases s.len(),
{
    if s.len() == 0 {
        0
    } else {
        n_splits(s.drop_last(), c, dt) + if splits_spec(s.last(), c, dt) {
            1nat
        } else {
            0nat
        }
    }
}

/// Every particle of the population is well formed.
pub open spec fn all_wf(s: Seq<ParticleState>) -> bool {
    forall|i: int| 0 <= i < s.len() ==> (#[trigger] s[i]).wf()
}

/// The population after one frame of `dt`, whatever was drawn: first the
/// stepped particles whose trail is not empty, in their order; then two
/// fresh daughters for each particle that split; then background spawns.
pub open spec fn is_frame_of(before: Seq<ParticleState>, after: Seq<ParticleState>, c: Chamber, dt: int) -> bool {
    let s = survivors(before, c, dt);
    let b = s.len() + 2 * n_splits(before, c, dt);
    &&& after.len() >= b
    &&& after.subrange(0, s.len() as int) == s
    &&& forall|i: int| s.len() <= i < b ==> (#[trigger] after[i]).is_fresh()
    &&& is_spawn_of(after.subrange(0, b as int), after, dt)
    &&& all_wf(after)
}

proof fn lemma_survivors_wf(s: Seq<ParticleState>, c: Chamber, dt: int)
    requires
        all_wf(s),
        c.wf(),
        0 <= dt <= LIMIT,
    ensures
        all_wf(survivors(s, c, dt)),
    decreases s.len(),
{
    if s.len() > 0 {
        assert(all_wf(s.drop_last())) by {
            assert forall|i: int| 0 <= i < s.drop_last().len() implies (#[trigger] s.drop_last()[i]).wf() by {
                assert(s.drop_last()[i] == s[i]);
            }
        }
        lemma_survivors_wf(s.drop_last(), c, dt);
        assert(s[s.len() - 1].wf());
    }
}

/// A frame of zero changes no particle and removes none.
pub proof fn lemma_zero_frame_survivors(s: Seq<ParticleState>, c: Chamber)
    requires
        all_wf(s),
    ensures
        survivors(s, c, 0) == s,
        n_splits(s, c, 0) == 0,
    decreases s.len(),
{
    if s.len() > 0 {
        assert(all_wf(s.drop_last())) by {
            assert forall|i: int| 0 <= i < s.drop_last().len() implies (#[trigger] s.drop_last()[i]).wf() by {
                assert(s.drop_last()[i] == s[i]);
            }
        }
        lemma_zero_frame_survivors(s.drop_last(), c);
        assert(s[s.len() - 1].wf());
        assert(s.drop_last().push(s.last()) =~= s);
    }
}

/// After any frame, every particle of the population has mass at least 1.
pub proof fn lemma_frame_keeps_mass(
    before: Seq<ParticleState>,
    after: Seq<ParticleState>,
    c: Chamber,
    dt: int,
)
    requires
        is_frame_of(before, after, c, dt),
    ensures
        forall|i: int| 0 <= i < after.len() ==> (#[trigger] after[i]).mass >= 1,
{
    assert forall|i: int| 0 <= i < after.len() implies (#[trigger] after[i]).mass >= 1 by {
        assert(after[i].wf());
    }
}

/// A decaying particle whose trail has one point left is gone from the
/// population after the next frame of positive length.
pub proof fn lemma_emptied_particle_removed(p: ParticleState, c: Chamber, dt: int)
    requires
        p.wf(),
        !p.is_alive,
        p.path.len() == 1,
        0 < dt <= LIMIT,
    ensures
        survivors(seq![p], c, dt).len() == 0,
        n_splits(seq![p], c, dt) == 0,
{
    let s = seq![p];
    assert(s.drop_last() =~= Seq::<ParticleState>::empty());
    assert(s.last() == p);
    assert(step_spec(p, c, dt).path.len() == 0);
    assert(survivors(s.drop_last(), c, dt).len() == 0);
    assert(n_splits(s.drop_last(), c, dt) == 0);
}

/// Advances the whole population by `dt`, in two phases: each particle is
/// stepped against a stable snapshot while splits and removals are noted,
/// then the survivors are kept in order, the daughters appended, and
/// background spawning run for `dt`.
pub fn step_population(chamber: &Chamber, particles: &mut Vec<Particle>, dt: i64)
    requires
        chamber.wf(),
        0 <= dt <= LIMIT,
        all_wf(states(old(particles)@)),
    ensures
        is_frame_of(states(old(particles)@), states(final(particles)@), *chamber, dt as int),
        dt == 0 ==> states(final(particles)@) == states(old(particles)@),
{
    let ghost old_ps = particles@;
    let ghost olds = states(old_ps);
    let n: usize = particles.len();
    let mut rev: Vec<Particle> = Vec::new();
    while particles.len() > 0
        invariant
            particles@.len() + rev@.len() == n,
            n == old_ps.len(),
            particles@ == old_ps.take(particles@.len() as int),
            forall|j: int| 0 <= j < rev@.len() ==> #[trigger] rev@[j] == old_ps[n - 1 - j],
        decreases particles@.len(),
    {
        let p = particles.pop().unwrap();
        rev.push(p);
        proof {
            assert(particles@ =~= old_ps.take(particles@.len() as int));
        }
    }
    let mut born: Vec<Particle> = Vec::new();
    let mut k: usize = 0;
    while rev.len() > 0
        invariant
            k + rev@.len() == n,
            n == old_ps.len(),
            olds == states(old_ps),
            all_wf(olds),
            chamber.wf(),
            0 <= dt <= LIMIT,
            forall|j: int| 0 <= j < rev@.len() ==> #[trigger] rev@[j] == old_ps[n - 1 - j],
            states(particles@) == survivors(olds.take(k as int), *chamber, dt as int),
            born@.len() == 2 * n_splits(olds.take(k as int), *chamber, dt as int),
            forall|j: int| 0 <= j < born@.len() ==> (#[trigger] born@[j])@.is_fresh(),
        decreases rev@.len(),
    {
        let mut p = rev.pop().unwrap();
        proof {
            assert(p == old_ps[k as int]);
            assert(p@ == olds[k as int]);
            assert(olds[k as int].wf());
            assert(olds.take(k + 1).drop_last() =~= olds.take(k as int));
            assert(olds.take(k + 1).last() == olds[k as int]);
        }
        let ghost before = p@;
        let decayed = step_particle(&mut p, chamber, dt);
        if decayed && p.mass > 1 {
            let mut ds = split_particle(&p);
            let ghost born0 = born@;
            let ghost ds0 = ds@;
            proof {
                assert(is_split_of(p@, states(ds@)));
                assert forall|j: int| 0 <= j < ds@.len() implies (#[trigger] ds@[j])@.is_fresh() by {
                    assert(states(ds@)[j] == ds@[j]@);
                }
            }
            born.append(&mut ds);
            proof {
                assert forall|j: int| 0 <= j < born@.len() implies (#[trigger] born@[j])@.is_fresh() by {
                    if j >= born0.len() {
                        assert(born@[j] == ds0[j - born0.len()]);
                    }
                }
            }
        }
        let ghost pre = particles@;
        if p.path.len() > 0 {
            particles.push(p);
            proof {
                assert(states(particles@) =~= states(pre).push(p@));
            }
        }
        k = k + 1;
    }
    proof {
        assert(olds.take(n as int) =~= olds);
        lemma_survivors_wf(olds, *chamber, dt as int);
    }
    let ghost kept = particles@;
    let ghost born_all = born@;
    particles.append(&mut born);
    let ghost mid = particles@;
    proof {
        let s = survivors(olds, *chamber, dt as int);
        assert(mid =~= kept + born_all);
        assert(states(mid).subrange(0, s.len() as int) =~= s);
        assert forall|i: int| 0 <= i < mid.len() implies (#[trigger] states(mid)[i]).wf() by {
            if i < kept.len() {
                assert(states(mid)[i] == s[i]);
            } else {
                assert(mid[i] == born_all[i - kept.len()]);
            }
        }
    }
    maybe_add_particles(dt, particles);
    proof {
        let s = survivors(olds, *chamber, dt as int);
        let fin = states(particles@);
        let b = s.len() + 2 * n_splits(olds, *chamber, dt as int);
        assert(fin.subrange(0, b as int) =~= states(mid));
        assert(fin.subrange(0, s.len() as int) =~= s) by {
            assert forall|i: int| 0 <= i < s.len() implies fin[i] == s[i] by {
                assert(fin.subrange(0, b as int)[i] == fin[i]);
                assert(states(mid).subrange(0, s.len() as int)[i] == states(mid)[i]);
            }
        }
        assert forall|i: int| s.len() <= i < b implies (#[trigger] fin[i]).is_fresh() by {
            assert(fin.subrange(0, b as int)[i] == fin[i]);
            assert(mid[i] == born_all[i - kept.len()]);
        }
        assert forall|i: int| 0 <= i < fin.len() implies (#[trigger] fin[i]).wf() by {
            if i < b {
                assert(fin.subrange(0, b as int)[i] == fin[i]);
                assert(states(mid)[i].wf());
            }
        }
        if dt == 0 {
            lemma_zero_frame_survivors(olds, *chamber);
            assert(fin =~= olds);
        }
    }
}

/// What a host shell keeps between frames: the chamber and the population.
pub struct Model {
    pub chamber: Chamber,
    pub particles: Vec<Particle>,
}

impl Model {
    /// The chamber is well formed, and so is every particle.
    pub open spec fn wf(&self) -> bool {
        self.chamber.wf() && all_wf(states(self.particles@))
    }
}

/// The starting model: a field of 1.5 along the z axis, friction 0.2, and
/// five root particles of split depth 6 with speeds up to 350 per axis.
pub fn model() -> (m: Model)
    ensures
        m.wf(),
        m.chamber == (Chamber { magnetic_field: Vec3 { x: 0, y: 0, z: 1_500_000 }, friction: 200_000 }),
        m.particles@.len() == 5,
        forall|i: int| 0 <= i < 5 ==> is_drawn_root(#[trigger] m.particles@[i]@, 6, 350_000_000),
{
    let chamber = Chamber::new(Vec3::new(0, 0, 1_500_000), 200_000);
    let particles = generate_particles(5, 6, 350_000_000);
    let m = Model { chamber, particles };
    proof {
        assert forall|i: int| 0 <= i < states(m.particles@).len() implies (#[trigger] states(m.particles@)[i]).wf() by {
            assert(is_drawn_root(m.particles@[i]@, 6, 350_000_000));
        }
    }
    m
}

/// Advances the model by one frame of `tdelta`.
pub fn update(model: &mut Model, tdelta: i64)
    requires
        old(model).wf(),
        0 <= tdelta <= LIMIT,
    ensures
        final(model).wf(),
        final(model).chamber == old(model).chamber,
        is_frame_of(states(old(model).particles@), states(final(model).particles@), old(model).chamber, tdelta as int),
        tdelta == 0 ==> states(final(model).particles@) == states(old(model).particles@),
{
    let chamber = model.chamber;
    step_population(&chamber, &mut model.particles, tdelta);
}

} // verus!
