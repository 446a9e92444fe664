use vstd::prelude::*;
use crate::geom::{Vec2i, V2};

verus! {

/// Fixed-point scale: 100 units stand for 1.0.
pub const UNIT: i64 = 100;

/// The life every particle starts with (255.0 in display units).
pub const LIFE_SPAWN: i64 = 25500;

/// The downward bias added to the velocity on every update of the
/// gravity-driven variants (0.05 in display units).
pub const GRAVITY_Y: i64 = 5;

/// The four behavioral variants a population can follow. They share one
/// integration step and differ only in life decrement and in whether the
/// acceleration is cleared after integrating.
#[derive(Clone, Copy, Debug, PartialEq, Eq, Structural)]
pub enum Variant {
    StaticGrid,
    Stream,
    RepellingCloud,
    TrailingCursor,
}

/// The per-update life decrement of a variant (2.0, 1.5, 0.5 and 2.0 in
/// display units).
pub open spec fn decrement_spec(v: Variant) -> int {
    match v {
        Variant::StaticGrid => 200,
        Variant::Stream => 150,
        Variant::RepellingCloud => 50,
        Variant::TrailingCursor => 200,
    }
}

pub fn decrement(v: Variant) -> (d: i64)
    ensures
        d as int == decrement_spec(v),
{
    match v {
        Variant::StaticGrid => 200,
        Variant::Stream => 150,
        Variant::RepellingCloud => 50,
        Variant::TrailingCursor => 200,
    }
}

/// Whether a variant treats forces as per-frame (acceleration cleared
/// after integrating) rather than as a constant baseline.
pub open spec fn resets_acceleration(v: Variant) -> bool {
    v is RepellingCloud
}

/// One simulated point. Visual attributes (radius, hue/saturation/value,
/// polygon resolution) are baked in at spawn time where the variant calls
/// for it and are never touched by an update. `idx` is the spawn identity
/// the repelling cloud uses to tell a particle from its neighbors.
#[derive(Clone, Copy, Debug, PartialEq, Eq, Structural)]
pub struct Particle {
    pub pos: Vec2i,
    pub vel: Vec2i,
    pub acc: Vec2i,
    pub life: i64,
    pub radius: i64,
    pub hue: i64,
    pub saturation: i64,
    pub value: i64,
    pub resolution: u64,
    pub idx: u64,
}

/// The mathematical value of a `Particle`, over unbounded integers.
pub ghost struct ParticleModel {
    pub pos: V2,
    pub vel: V2,
    pub acc: V2,
    pub life: int,
    pub radius: int,
    pub hue: int,
    pub saturation: int,
    pub value: int,
    pub resolution: int,
    pub idx: int,
}

impl View for Particle {
    type V = ParticleModel;

    open spec fn view(&self) -> ParticleModel {
        ParticleModel {
            pos: self.pos@,
            vel: self.vel@,
            acc: self.acc@,
            life: self.life as int,
            radius: self.radius as int,
            hue: self.hue as int,
            saturation: self.saturation as int,
            value: self.value as int,
            resolution: self.resolution as int,
            idx: self.idx as int,
        }
    }
}

/// One integration step: the acceleration is added to the velocity, the
/// new velocity is subtracted from the position (the sign convention the
/// animations are built around), and the life shrinks by the variant's
/// decrement. The repelling cloud then clears its acceleration; the other
/// variants keep theirs as a constant drift.
pub open spec fn stepped(p: ParticleModel, v: Variant) -> ParticleModel {
    let nvx = p.vel.x + p.acc.x;
    let nvy = p.vel.y + p.acc.y;
    ParticleModel {
        vel: V2 { x: nvx, y: nvy },
        pos: V2 { x: p.pos.x - nvx, y: p.pos.y - nvy },
        acc: if resets_acceleration(v) {
            V2 { x: 0, y: 0 }
        } else {
            p.acc
        },
        life: p.life - decrement_spec(v),
        ..p
    }
}

pub open spec fn in_i64(x: int) -> bool {
    i64::MIN <= x <= i64::MAX
}

/// The machine-width conditions one integration step needs: the new
/// velocity, the new position and the decreased life must fit in `i64`.
/// (200 is the largest decrement of any variant.)
pub open spec fn step_fits(p: ParticleModel) -> bool {
    &&& in_i64(p.vel.x + p.acc.x)
    &&& in_i64(p.vel.y + p.acc.y)
    &&& in_i64(p.pos.x - (p.vel.x + p.acc.x))
    &&& in_i64(p.pos.y - (p.vel.y + p.acc.y))
    &&& in_i64(p.life - 200)
}

/// The particle after `k` integration steps of one variant.
pub open spec fn stepped_k(p: ParticleModel, v: Variant, k: nat) -> ParticleModel
    decreases k,
{
    if k == 0 {
        p
    } else {
        stepped(stepped_k(p, v, (k - 1) as nat), v)
    }
}

/// The squared magnitude of a vector.
pub open spec fn mag2(v: V2) -> int {
    v.x * v.x + v.y * v.y
}

/// The mathematical values of a sequence of particles.
pub open spec fn models(s: Seq<Particle>) -> Seq<ParticleModel> {
    s.map_values(|p: Particle| p@)
}

/// Both position components lie within the coordinate bound the
/// repulsion arithmetic needs.
pub open spec fn pos_bounded(p: ParticleModel) -> bool {
    &&& -(crate::config::POS_LIMIT as int) <= p.pos.x <= crate::config::POS_LIMIT as int
    &&& -(crate::config::POS_LIMIT as int) <= p.pos.y <= crate::config::POS_LIMIT as int
}

impl Particle {
    /// Integrate the particle in place for one frame of the given variant.
    pub fn update(&mut self, variant: Variant)
        requires
            step_fits(old(self)@),
        ensures
            final(self)@ == stepped(old(self)@, variant),
    {
        self.vel.x = self.vel.x + self.acc.x;
        self.vel.y = self.vel.y + self.acc.y;
        self.pos.x = self.pos.x - self.vel.x;
        self.pos.y = self.pos.y - self.vel.y;
        match variant {
            Variant::RepellingCloud => {
                self.acc = Vec2i { x: 0, y: 0 };
            },
            _ => {},
        }
        let d = decrement(variant);
        self.life = self.life - d;
    }

    /// Whether the particle has expired and must be removed (strictly
    /// below zero: a particle at exactly zero life is still alive).
    pub fn is_dead(&self) -> (dead: bool)
        ensures
            dead == (self@.life < 0),
    {
        self.life < 0
    }

    /// Accumulate a force into the acceleration.
    pub fn apply_force(&mut self, f: Vec2i)
        requires
            in_i64(old(self)@.acc.x + f@.x),
            in_i64(old(self)@.acc.y + f@.y),
        ensures
            final(self)@ == (ParticleModel {
                acc: V2 { x: old(self)@.acc.x + f@.x, y: old(self)@.acc.y + f@.y },
                ..old(self)@
            }),
    {
        self.acc.x = self.acc.x + f.x;
        self.acc.y = self.acc.y + f.y;
    }
}

/// Law: an update never touches what a particle looks like: the radius,
/// color, resolution and spawn identity a particle was stamped with at
/// spawn time stay with it for life, so later configuration edits never
/// reach an already-spawned particle.
pub proof fn law_update_preserves_appearance(p: ParticleModel, v: Variant)
    ensures
        stepped(p, v).radius == p.radius,
        stepped(p, v).hue == p.hue,
        stepped(p, v).saturation == p.saturation,
        stepped(p, v).value == p.value,
        stepped(p, v).resolution == p.resolution,
        stepped(p, v).idx == p.idx,
{
}

/// Law: life decreases by exactly the variant's decrement on every
/// update, so after `k` updates it equals the initial life minus `k`
/// times the decrement, for every variant and every particle.
pub proof fn law_life_after_k_updates(p: ParticleModel, v: Variant, k: nat)
    ensures
        stepped_k(p, v, k).life == p.life - k * decrement_spec(v),
    decreases k,
{
    if k > 0 {
        let d = decrement_spec(v);
        let km1 = (k - 1) as nat;
        law_life_after_k_updates(p, v, km1);
        assert(km1 * d + d == (km1 + 1) * d) by (nonlinear_arith);
        assert(k == km1 + 1);
    }
}

/// How a particle whose acceleration is never cleared drifts: the
/// acceleration stays put and the velocity accumulates it linearly.
pub proof fn lemma_constant_acceleration_velocity(p: ParticleModel, v: Variant, k: nat)
    requires
        !resets_acceleration(v),
    ensures
        stepped_k(p, v, k).acc == p.acc,
        stepped_k(p, v, k).vel.x == p.vel.x + k * p.acc.x,
        stepped_k(p, v, k).vel.y == p.vel.y + k * p.acc.y,
    decreases k,
{
    if k > 0 {
        let km1 = (k - 1) as nat;
        lemma_constant_acceleration_velocity(p, v, km1);
        assert(km1 * p.acc.x + p.acc.x == (km1 + 1) * p.acc.x) by (nonlinear_arith);
        assert(km1 * p.acc.y + p.acc.y == (km1 + 1) * p.acc.y) by (nonlinear_arith);
        assert(k == km1 + 1);
    }
}

/// Law: once a grid particle integrates (after a shatter), its velocity
/// strictly grows in magnitude over at least one later update: the
/// constant downward bias keeps feeding the velocity, so as soon as the
/// downward component is nonnegative the squared magnitude strictly
/// increases on the very next update.
pub proof fn law_shattered_velocity_grows(p: ParticleModel)
    requires
        p.acc == (V2 { x: 0, y: GRAVITY_Y as int }),
    ensures
        exists|k: nat|
            mag2(#[trigger] stepped_k(p, Variant::StaticGrid, k).vel) < mag2(
                stepped_k(p, Variant::StaticGrid, k + 1).vel,
            ),
{
    let g = GRAVITY_Y as int;
    let k0: nat = if p.vel.y >= 0 {
        0
    } else {
        (-p.vel.y) as nat
    };
    lemma_constant_acceleration_velocity(p, Variant::StaticGrid, k0);
    lemma_constant_acceleration_velocity(p, Variant::StaticGrid, (k0 + 1) as nat);
    let vy = p.vel.y + k0 * g;
    assert(vy >= 0) by (nonlinear_arith)
        requires
            vy == p.vel.y + k0 * g,
            g == 5,
            k0 == if p.vel.y >= 0 { 0 } else { (-p.vel.y) as nat },
    ;
    assert(p.vel.y + (k0 + 1) * g == vy + g) by (nonlinear_arith)
        requires
            vy == p.vel.y + k0 * g,
    ;
    assert((vy + g) * (vy + g) > vy * vy) by (nonlinear_arith)
        requires
            vy >= 0,
            g == 5,
    ;
    assert(mag2(stepped_k(p, Variant::StaticGrid, k0).vel) < mag2(
        stepped_k(p, Variant::StaticGrid, k0 + 1).vel,
    ));
}

} // verus!
