//! The chamber and the particles that move through it.
use std::collections::VecDeque;
use vstd::prelude::*;

use crate::fixed::{in_range, Vec3, LIMIT, ONE};

verus! {

/// The environment: a uniform magnetic field and a friction coefficient.
#[derive(Clone, Copy, Debug, PartialEq, Eq, Structural)]
pub struct Chamber {
    pub magnetic_field: Vec3,
    /// Fractional damping of velocity per second, in `[0, ONE)`.
    pub friction: i64,
}

impl Chamber {
    /// The field is in range and the friction lies in `[0, ONE)`.
    pub open spec fn wf(self) -> bool {
        self.magnetic_field.wf() && 0 <= self.friction < ONE
    }

    /// Builds a chamber.
    pub fn new(magnetic_field: Vec3, friction: i64) -> (r: Chamber)
        ensures
            r == (Chamber { magnetic_field, friction }),
    {
        Chamber { magnetic_field, friction }
    }
}

/// What a particle is, with its trail as a sequence.
pub struct ParticleState {
    pub position: Vec3,
    pub velocity: Vec3,
    pub charge: i64,
    pub mass: i64,
    pub lifetime_s: i64,
    pub decays_after: i64,
    pub is_alive: bool,
    pub path: Seq<Vec3>,
    pub generation: u64,
}

impl ParticleState {
    /// Everything that holds of a particle at every moment, its trail aside.
    pub open spec fn wf_core(self) -> bool {
        &&& self.position.wf()
        &&& self.velocity.wf()
        &&& in_range(self.charge as int)
        &&& 1 <= self.mass <= LIMIT
        &&& 0 <= self.decays_after <= LIMIT
        &&& 0 <= self.lifetime_s <= 2 * LIMIT
        &&& self.is_alive ==> self.lifetime_s < self.decays_after
        &&& self.is_alive ==> self.path.len() >= 1
    }

    /// A particle that belongs to a population: its trail is not empty.
    pub open spec fn wf(self) -> bool {
        self.wf_core() && self.path.len() >= 1
    }

    /// A particle just created: alive, with no elapsed time and a one-point trail.
    pub open spec fn is_fresh(self) -> bool {
        &&& self.wf()
        &&& self.is_alive
        &&& self.lifetime_s == 0
        &&& self.path == seq![self.position]
    }
}

/// One charged particle and its trail.
pub struct Particle {
    pub position: Vec3,
    pub velocity: Vec3,
    pub charge: i64,
    pub mass: i64,
    pub lifetime_s: i64,
    pub decays_after: i64,
    pub is_alive: bool,
    pub path: VecDeque<Vec3>,
    /// How many splits separate this particle from its root ancestor.
    pub generation: u64,
}

impl View for Particle {
    type V = ParticleState;

    open spec fn view(&self) -> ParticleState {
        ParticleState {
            position: self.position,
            velocity: self.velocity,
            charge: self.charge,
            mass: self.mass,
            lifetime_s: self.lifetime_s,
            decays_after: self.decays_after,
            is_alive: self.is_alive,
            path: self.path@,
            generation: self.generation,
        }
    }
}

/// The states of a sequence of particles.
pub open spec fn states(ps: Seq<Particle>) -> Seq<ParticleState> {
    ps.map_values(|p: Particle| p@)
}

impl Particle {
    /// A new alive particle at `position`, with a one-point trail.
    pub fn new(
        position: Vec3,
        velocity: Vec3,
        charge: i64,
        mass: i64,
        decays_after: i64,
        generation: u64,
    ) -> (r: Particle)
        requires
            position.wf(),
            velocity.wf(),
            in_range(charge as int),
            1 <= mass <= LIMIT,
            0 < decays_after <= LIMIT,
        ensures
            r@.is_fresh(),
            r.position == position,
            r.velocity == velocity,
            r.charge == charge,
            r.mass == mass,
            r.decays_after == decays_after,
            r.generation == generation,
    {
        let mut path: VecDeque<Vec3> = VecDeque::new();
        path.push_back(position);
        Particle {
            position,
            velocity,
            charge,
            mass,
            lifetime_s: 0,
            decays_after,
            is_alive: true,
            path,
            generation,
        }
    }

    /// The particle's charge.
    pub fn charge(&self) -> (r: i64)
        ensures
            r == self.charge,
    {
        self.charge
    }

    /// The particle's mass.
    pub fn mass(&self) -> (r: i64)
        ensures
            r == self.mass,
    {
        self.mass
    }

    /// The number of points in the particle's trail.
    pub fn path_len(&self) -> (r: usize)
        ensures
            r == self.path@.len(),
    {
        self.path.len()
    }

    /// The trail point at `i`, the oldest first.
    pub fn path_point(&self, i: usize) -> (r: Vec3)
        requires
            i < self.path@.len(),
        ensures
            r == self.path@[i as int],
    {
        self.path[i]
    }
}

} // verus!
