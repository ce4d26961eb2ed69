//! The per-particle step: decay bookkeeping, Lorentz force, friction and
//! explicit Euler integration.
use vstd::prelude::*;

use crate::fixed::{
    add_vec, add_vec_spec, cross_product, cross_spec, div_vec, div_vec_spec, fx_mul, mul_spec,
    mul_vec, mul_vec_spec, scale_vec, scale_vec_spec, Vec3, LIMIT, ONE,
};
use crate::models::{Chamber, Particle, ParticleState};

verus! {

/// The acceleration `charge * (velocity × field) / mass` of a particle.
pub open spec fn acceleration_spec(p: ParticleState, c: Chamber) -> Vec3 {
    div_vec_spec(
        scale_vec_spec(p.charge as int, cross_spec(p.velocity, c.magnetic_field)),
        p.mass as int,
    )
}

/// The velocity after one step of `dt`: Euler integration of the
/// acceleration, then damping by the factor `ONE - friction * dt`.
pub open spec fn velocity_spec(p: ParticleState, c: Chamber, dt: int) -> Vec3 {
    mul_vec_spec(
        add_vec_spec(p.velocity, mul_vec_spec(acceleration_spec(p, c), dt)),
        ONE - mul_spec(c.friction as int, dt),
    )
}

/// The position after one step of `dt`.
pub open spec fn position_spec(p: ParticleState, c: Chamber, dt: int) -> Vec3 {
    add_vec_spec(p.position, mul_vec_spec(velocity_spec(p, c, dt), dt))
}

/// A particle after one step of `dt`.
///
/// A step of zero changes nothing. A decaying particle loses the oldest
/// point of its trail. An alive particle ages by `dt`, decays once its age
/// reaches `decays_after`, moves, and appends its new position to its trail.
pub open spec fn step_spec(p: ParticleState, c: Chamber, dt: int) -> ParticleState {
    if dt == 0 {
        p
    } else if !p.is_alive {
        ParticleState { path: p.path.drop_first(), ..p }
    } else {
        let lifetime = p.lifetime_s + dt;
        let position = position_spec(p, c, dt);
        ParticleState {
            position,
            velocity: velocity_spec(p, c, dt),
            lifetime_s: lifetime as i64,
            is_alive: lifetime < p.decays_after,
            path: p.path.push(position),
            ..p
        }
    }
}

/// Whether the step of `dt` makes the particle decay into daughters: it
/// decays in this step and has mass to split.
pub open spec fn splits_spec(p: ParticleState, c: Chamber, dt: int) -> bool {
    p.is_alive && !step_spec(p, c, dt).is_alive && p.mass > 1
}

/// Advances one particle by `dt`; returns whether it decayed in this step.
pub fn step_particle(p: &mut Particle, chamber: &Chamber, dt: i64) -> (decayed: bool)
    requires
        old(p)@.wf(),
        chamber.wf(),
        0 <= dt <= LIMIT,
    ensures
        final(p)@ == step_spec(old(p)@, *chamber, dt as int),
        final(p)@.wf_core(),
        decayed == (old(p)@.is_alive && !final(p)@.is_alive),
{
    if dt == 0 {
        return false;
    }
    if !p.is_alive {
        let _ = p.path.pop_front();
        return false;
    }
    p.lifetime_s = p.lifetime_s + dt;
    let decayed = p.lifetime_s >= p.decays_after;
    if decayed {
        p.is_alive = false;
    }
    let force = scale_vec(p.charge, &cross_product(&p.velocity, &chamber.magnetic_field));
    let acceleration = div_vec(&force, p.mass);
    let v1 = add_vec(&p.velocity, &mul_vec(&acceleration, dt));
    let damping: i64 = ONE - fx_mul(chamber.friction, dt);
    p.velocity = mul_vec(&v1, damping);
    p.position = add_vec(&p.position, &mul_vec(&p.velocity, dt));
    p.path.push_back(p.position);
    proof {
        assert(final(p)@.path == old(p)@.path.push(final(p)@.position));
    }
    decayed
}

/// The mass of a particle never changes, and a step keeps every invariant
/// of a particle, its trail aside.
pub proof fn lemma_step_keeps_mass(p: ParticleState, c: Chamber, dt: int)
    requires
        p.wf(),
        c.wf(),
        0 <= dt <= LIMIT,
    ensures
        step_spec(p, c, dt).mass == p.mass,
        step_spec(p, c, dt).mass >= 1,
        step_spec(p, c, dt).wf_core(),
{
}

/// An alive particle gains exactly one trail point, its new position, in
/// every step of positive length.
pub proof fn lemma_alive_path_grows(p: ParticleState, c: Chamber, dt: int)
    requires
        p.wf(),
        c.wf(),
        p.is_alive,
        0 < dt <= LIMIT,
    ensures
        step_spec(p, c, dt).path.len() == p.path.len() + 1,
        step_spec(p, c, dt).path == p.path.push(step_spec(p, c, dt).position),
{
}

/// A decaying particle loses exactly its oldest trail point in every step
/// of positive length, and stays decaying.
pub proof fn lemma_decaying_path_shrinks(p: ParticleState, c: Chamber, dt: int)
    requires
        p.wf(),
        c.wf(),
        !p.is_alive,
        0 < dt <= LIMIT,
    ensures
        step_spec(p, c, dt).path.len() == p.path.len() - 1,
        step_spec(p, c, dt).path == p.path.subrange(1, p.path.len() as int),
        !step_spec(p, c, dt).is_alive,
{
}

/// An alive particle decays in exactly the step in which its age reaches
/// `decays_after`: never earlier, never later.
pub proof fn lemma_decay_exact(p: ParticleState, c: Chamber, dt: int)
    requires
        p.wf(),
        c.wf(),
        p.is_alive,
        0 <= dt <= LIMIT,
    ensures
        step_spec(p, c, dt).lifetime_s == p.lifetime_s + dt,
        !step_spec(p, c, dt).is_alive <==> p.lifetime_s + dt >= p.decays_after,
{
}

/// A step of zero leaves the particle exactly as it was: position,
/// velocity, age and trail, and no decay.
pub proof fn lemma_zero_step_idle(p: ParticleState, c: Chamber)
    requires
        p.wf(),
    ensures
        step_spec(p, c, 0) == p,
        !splits_spec(p, c, 0),
{
}

} // verus!
