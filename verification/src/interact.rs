use vstd::prelude::*;
use vstd::arithmetic::div_mod::{lemma_div_pos_is_pos, lemma_multiply_divide_le, lemma_div_by_multiple, lemma_div_is_ordered};
use crate::geom::{Vec2i, V2};
use crate::config::POS_LIMIT;
use crate::particle::{models, pos_bounded, Particle, ParticleModel};

verus! {

/// Magnitude of one repulsion contribution: the unit direction scaled by
/// 0.5, i.e. 50 fixed-point units.
pub const REPEL_SCALE: i64 = 50;

/// The floor of the square root of `n`.
pub open spec fn isqrt_spec(n: nat) -> nat
    decreases n,
{
    if n == 0 {
        0
    } else {
        let r = isqrt_spec((n - 1) as nat);
        if (r + 1) * (r + 1) <= n {
            (r + 1) as nat
        } else {
            r
        }
    }
}

pub proof fn lemma_isqrt_bounds(n: nat)
    ensures
        isqrt_spec(n) * isqrt_spec(n) <= n,
        n < (isqrt_spec(n) + 1) * (isqrt_spec(n) + 1),
    decreases n,
{
    let s = isqrt_spec(n);
    if n > 0 {
        let m = (n - 1) as nat;
        lemma_isqrt_bounds(m);
        let r = isqrt_spec(m);
        if (r + 1) * (r + 1) <= n {
            assert(s == r + 1);
            assert(n <= (r + 1) * (r + 1));
            assert(s * s <= n) by (nonlinear_arith)
                requires
                    s == r + 1,
                    (r + 1) * (r + 1) <= n,
            ;
            assert(n < (s + 1) * (s + 1)) by (nonlinear_arith)
                requires
                    s == r + 1,
                    n <= (r + 1) * (r + 1),
            ;
        } else {
            assert(s == r);
            assert(r * r <= m);
            assert(s * s <= n) by (nonlinear_arith)
                requires
                    s == r,
                    r * r <= m,
                    m < n,
            ;
            assert(n < (s + 1) * (s + 1)) by (nonlinear_arith)
                requires
                    s == r,
                    !((r + 1) * (r + 1) <= n),
            ;
        }
    } else {
        assert(s == 0);
        assert(s * s <= n) by (nonlinear_arith)
            requires
                s == 0,
                n == 0,
        ;
        assert(n < (s + 1) * (s + 1)) by (nonlinear_arith)
            requires
                s == 0,
                n == 0,
        ;
    }
}

pub proof fn lemma_isqrt_unique(n: nat, r: nat)
    requires
        r * r <= n,
        n < (r + 1) * (r + 1),
    ensures
        r == isqrt_spec(n),
{
    lemma_isqrt_bounds(n);
    let s = isqrt_spec(n);
    assert(r == s) by (nonlinear_arith)
        requires
            r * r <= n,
            n < (r + 1) * (r + 1),
            s * s <= n,
            n < (s + 1) * (s + 1),
    ;
}

pub proof fn lemma_isqrt_pos(n: nat)
    requires
        n >= 1,
    ensures
        isqrt_spec(n) >= 1,
{
    lemma_isqrt_bounds(n);
    let r = isqrt_spec(n);
    assert(r >= 1) by (nonlinear_arith)
        requires
            n < (r + 1) * (r + 1),
            n >= 1,
    ;
}

pub proof fn lemma_isqrt_monotone(m: nat, n: nat)
    requires
        m <= n,
    ensures
        isqrt_spec(m) <= isqrt_spec(n),
{
    lemma_isqrt_bounds(m);
    lemma_isqrt_bounds(n);
    let a = isqrt_spec(m);
    let b = isqrt_spec(n);
    assert(a <= b) by (nonlinear_arith)
        requires
            a * a <= m,
            m < (a + 1) * (a + 1),
            b * b <= n,
            n < (b + 1) * (b + 1),
            m <= n,
    ;
}

pub proof fn lemma_isqrt_square(a: nat)
    ensures
        isqrt_spec(a * a) == a,
{
    assert(a * a < (a + 1) * (a + 1)) by (nonlinear_arith);
    lemma_isqrt_unique(a * a, a);
}

/// The floor of the square root, by bisection.
pub fn isqrt(n: u64) -> (r: u64)
    requires
        n <= 8_000_000_000_000_000_000,
    ensures
        r as nat == isqrt_spec(n as nat),
{
    if n == 0 {
        return 0;
    }
    let mut lo: u64 = 0;
    let mut hi: u64 = 3_000_000_000;
    proof {
        assert((3_000_000_000 as int) * (3_000_000_000 as int) > 8_000_000_000_000_000_000)
            by (nonlinear_arith);
    }
    while hi - lo > 1
        invariant
            lo < hi <= 3_000_000_000,
            (lo as int) * (lo as int) <= n as int,
            (n as int) < (hi as int) * (hi as int),
            n <= 8_000_000_000_000_000_000,
        decreases hi - lo,
    {
        let mid = lo + (hi - lo) / 2;
        proof {
            assert((mid as int) * (mid as int) <= 9_000_000_000_000_000_000) by (nonlinear_arith)
                requires
                    0 <= mid <= 3_000_000_000,
            ;
        }
        if mid * mid <= n {
            lo = mid;
        } else {
            hi = mid;
        }
    }
    proof {
        lemma_isqrt_unique(n as nat, lo as nat);
    }
    lo
}

/// The squared Euclidean distance between two points.
pub open spec fn dist_sq(a: V2, b: V2) -> int {
    (a.x - b.x) * (a.x - b.x) + (a.y - b.y) * (a.y - b.y)
}

/// One component of the half-strength unit vector: `d / len`, scaled by
/// 50 and rounded toward zero (`len` is the vector's length, at least 1).
pub open spec fn scaled_toward(d: int, len: int) -> int {
    if d >= 0 {
        (d * REPEL_SCALE) / len
    } else {
        -(((-d) * REPEL_SCALE) / len)
    }
}

/// The repulsion `q` exerts on `p`: when `q` is a different particle,
/// strictly closer to `p` than `p`'s radius and not exactly on top of it
/// (a zero-length direction cannot be normalized and contributes
/// nothing), the unit vector from `q` toward `p` scaled by 0.5; zero
/// otherwise.
pub open spec fn repel_delta(p: ParticleModel, q: ParticleModel) -> V2 {
    let dx = p.pos.x - q.pos.x;
    let dy = p.pos.y - q.pos.y;
    let d2 = dx * dx + dy * dy;
    if q.idx == p.idx || d2 == 0 || d2 >= p.radius * p.radius {
        V2 { x: 0, y: 0 }
    } else {
        let len = isqrt_spec(d2 as nat) as int;
        V2 { x: scaled_toward(dx, len), y: scaled_toward(dy, len) }
    }
}

/// The sum of the repulsions every particle of the snapshot exerts on `p`.
pub open spec fn repel_sum(p: ParticleModel, s: Seq<ParticleModel>) -> V2
    decreases s.len(),
{
    if s.len() == 0 {
        V2 { x: 0, y: 0 }
    } else {
        let rest = repel_sum(p, s.drop_last());
        let f = repel_delta(p, s.last());
        V2 { x: rest.x + f.x, y: rest.y + f.y }
    }
}

/// A particle after the interaction pass: the summed repulsion from the
/// frozen snapshot, accumulated into its acceleration.
pub open spec fn interacted(p: ParticleModel, s: Seq<ParticleModel>) -> ParticleModel {
    ParticleModel {
        acc: V2 { x: p.acc.x + repel_sum(p, s).x, y: p.acc.y + repel_sum(p, s).y },
        ..p
    }
}

/// `scaled_toward(d, len)` lies in `[-50, 50]` and keeps the sign of `d`
/// whenever `d*d <= d2` and `len` is the floor square root of `d2`.
proof fn lemma_scaled_toward_bounded(d: int, d2: int, len: int)
    requires
        d * d <= d2,
        d2 >= 1,
        len == isqrt_spec(d2 as nat) as int,
    ensures
        -50 <= scaled_toward(d, len) <= 50,
        d >= 0 ==> scaled_toward(d, len) >= 0,
        d < 0 ==> scaled_toward(d, len) <= 0,
{
    lemma_isqrt_pos(d2 as nat);
    let a = if d >= 0 {
        d
    } else {
        -d
    };
    assert(a * a == d * d && a * a >= 0) by (nonlinear_arith)
        requires
            a == d || a == -d,
            a >= 0,
    ;
    lemma_isqrt_monotone((a * a) as nat, d2 as nat);
    lemma_isqrt_square(a as nat);
    assert(a <= len);
    lemma_div_pos_is_pos(a * 50, len);
    assert(a * 50 <= len * 50) by (nonlinear_arith)
        requires
            0 <= a <= len,
    ;
    lemma_multiply_divide_le(a * 50, len, 50);
    assert((a * 50) / len <= 50);
}

/// A single repulsion contribution never exceeds the half-unit scale in
/// either component.
pub proof fn lemma_repel_delta_bounded(p: ParticleModel, q: ParticleModel)
    ensures
        -50 <= repel_delta(p, q).x <= 50,
        -50 <= repel_delta(p, q).y <= 50,
{
    let dx = p.pos.x - q.pos.x;
    let dy = p.pos.y - q.pos.y;
    let d2 = dx * dx + dy * dy;
    assert(dx * dx >= 0) by (nonlinear_arith);
    assert(dy * dy >= 0) by (nonlinear_arith);
    if !(q.idx == p.idx || d2 == 0 || d2 >= p.radius * p.radius) {
        let len = isqrt_spec(d2 as nat) as int;
        lemma_scaled_toward_bounded(dx, d2, len);
        lemma_scaled_toward_bounded(dy, d2, len);
    }
}

/// The summed repulsion of a snapshot of `n` particles is at most `50 n`
/// in either component.
pub proof fn lemma_repel_sum_bounded(p: ParticleModel, s: Seq<ParticleModel>)
    ensures
        -50 * s.len() <= repel_sum(p, s).x <= 50 * s.len(),
        -50 * s.len() <= repel_sum(p, s).y <= 50 * s.len(),
    decreases s.len(),
{
    if s.len() > 0 {
        lemma_repel_sum_bounded(p, s.drop_last());
        lemma_repel_delta_bounded(p, s.last());
    }
}

impl Particle {
    /// The interaction pass for one particle: accumulate into its
    /// acceleration the repulsion from every member of the frozen
    /// snapshot (the particle itself is skipped by its spawn identity).
    pub fn intersects(&mut self, others: &Vec<Particle>)
        requires
            pos_bounded(old(self)@),
            0 < old(self).radius <= POS_LIMIT,
            forall|i: int| 0 <= i < others@.len() ==> pos_bounded(#[trigger] models(others@)[i]),
            crate::particle::in_i64(old(self)@.acc.x - 50 * others@.len()),
            crate::particle::in_i64(old(self)@.acc.x + 50 * others@.len()),
            crate::particle::in_i64(old(self)@.acc.y - 50 * others@.len()),
            crate::particle::in_i64(old(self)@.acc.y + 50 * others@.len()),
        ensures
            final(self)@ == interacted(old(self)@, models(others@)),
    {
        let p0 = *self;
        let n = others.len();
        let ghost om = models(others@);
        for j in 0..n
            invariant
                n == others@.len(),
                om == models(others@),
                p0 == *old(self),
                pos_bounded(p0@),
                0 < p0.radius <= POS_LIMIT,
                forall|i: int| 0 <= i < others@.len() ==> pos_bounded(#[trigger] models(others@)[i]),
                crate::particle::in_i64(p0@.acc.x - 50 * others@.len()),
                crate::particle::in_i64(p0@.acc.x + 50 * others@.len()),
                crate::particle::in_i64(p0@.acc.y - 50 * others@.len()),
                crate::particle::in_i64(p0@.acc.y + 50 * others@.len()),
                self@ == interacted(p0@, om.take(j as int)),
        {
            proof {
                assert(om.take(j as int + 1).drop_last() =~= om.take(j as int));
                assert(om.take(j as int + 1).last() == om[j as int]);
                assert(om[j as int] == others@[j as int]@);
                lemma_repel_sum_bounded(p0@, om.take(j as int));
                lemma_repel_sum_bounded(p0@, om.take(j as int + 1));
                lemma_repel_delta_bounded(p0@, om[j as int]);
                assert(om.take(j as int).len() <= others@.len());
                assert(50 * om.take(j as int).len() <= 50 * others@.len()) by (nonlinear_arith)
                    requires
                        om.take(j as int).len() <= others@.len(),
                ;
                assert(50 * om.take(j as int + 1).len() <= 50 * others@.len()) by (nonlinear_arith)
                    requires
                        om.take(j as int + 1).len() <= others@.len(),
                ;
            }
            let f = repel_one(&p0, &others[j]);
            self.acc.x = self.acc.x + f.x;
            self.acc.y = self.acc.y + f.y;
        }
        proof {
            assert(om.take(n as int) =~= om);
        }
    }
}

/// The repulsion one snapshot particle exerts on `p`, as executable
/// arithmetic: square the distance, compare against the squared radius,
/// and scale the direction by the integer square root of the squared
/// distance.
pub fn repel_one(p: &Particle, q: &Particle) -> (f: Vec2i)
    requires
        pos_bounded(p@),
        pos_bounded(q@),
        0 < p.radius <= POS_LIMIT,
    ensures
        f@ == repel_delta(p@, q@),
{
    if p.idx == q.idx {
        return Vec2i { x: 0, y: 0 };
    }
    let dx = p.pos.x - q.pos.x;
    let dy = p.pos.y - q.pos.y;
    proof {
        assert(0 <= dx * dx <= 4_000_000_000_000_000_000) by (nonlinear_arith)
            requires
                -2_000_000_000 <= dx <= 2_000_000_000,
        ;
        assert(0 <= dy * dy <= 4_000_000_000_000_000_000) by (nonlinear_arith)
            requires
                -2_000_000_000 <= dy <= 2_000_000_000,
        ;
        assert(0 < p.radius * p.radius <= 1_000_000_000_000_000_000) by (nonlinear_arith)
            requires
                0 < p.radius <= 1_000_000_000,
        ;
    }
    let d2 = dx * dx + dy * dy;
    let r2 = p.radius * p.radius;
    if d2 == 0 || d2 >= r2 {
        return Vec2i { x: 0, y: 0 };
    }
    let len = isqrt(d2 as u64);
    proof {
        lemma_isqrt_pos(d2 as nat);
        lemma_scaled_toward_bounded(dx as int, d2 as int, len as int);
        lemma_scaled_toward_bounded(dy as int, d2 as int, len as int);
    }
    let axu: u64 = if dx >= 0 {
        dx as u64
    } else {
        (-dx) as u64
    };
    let ayu: u64 = if dy >= 0 {
        dy as u64
    } else {
        (-dy) as u64
    };
    let mx = (axu * 50) / len;
    let my = (ayu * 50) / len;
    proof {
        let axi = axu as int;
        let ayi = ayu as int;
        assert(0 <= axi * axi <= d2 && 0 <= ayi * ayi <= d2) by (nonlinear_arith)
            requires
                axi == dx || axi == -dx,
                ayi == dy || ayi == -dy,
                d2 == dx * dx + dy * dy,
        ;
        lemma_isqrt_monotone((axi * axi) as nat, d2 as nat);
        lemma_isqrt_square(axi as nat);
        lemma_isqrt_monotone((ayi * ayi) as nat, d2 as nat);
        lemma_isqrt_square(ayi as nat);
        assert(axi <= len as int && ayi <= len as int);
        lemma_div_pos_is_pos(axi * 50, len as int);
        lemma_div_pos_is_pos(ayi * 50, len as int);
        assert(axi * 50 <= len as int * 50) by (nonlinear_arith)
            requires
                0 <= axi <= len as int,
        ;
        assert(ayi * 50 <= len as int * 50) by (nonlinear_arith)
            requires
                0 <= ayi <= len as int,
        ;
        lemma_multiply_divide_le(axi * 50, len as int, 50);
        lemma_multiply_divide_le(ayi * 50, len as int, 50);
    }
    let fx: i64 = if dx >= 0 {
        mx as i64
    } else {
        -(mx as i64)
    };
    let fy: i64 = if dy >= 0 {
        my as i64
    } else {
        -(my as i64)
    };
    Vec2i { x: fx, y: fy }
}

/// Law: two particles at exactly the same position exert no repulsion on
/// each other: the zero-length direction is skipped rather than
/// normalized, so no invalid force ever reaches an acceleration.
pub proof fn law_coincident_pair_no_force(p: ParticleModel, q: ParticleModel)
    requires
        p.pos == q.pos,
    ensures
        repel_delta(p, q) == (V2 { x: 0, y: 0 }),
        repel_delta(q, p) == (V2 { x: 0, y: 0 }),
{
}

/// Law: two particles farther apart than the radius contribute no force
/// to each other.
pub proof fn law_far_pair_no_force(p: ParticleModel, q: ParticleModel)
    requires
        dist_sq(p.pos, q.pos) >= p.radius * p.radius,
    ensures
        repel_delta(p, q) == (V2 { x: 0, y: 0 }),
{
    assert((p.pos.x - q.pos.x) * (p.pos.x - q.pos.x) == (q.pos.x - p.pos.x) * (q.pos.x - p.pos.x))
        by (nonlinear_arith);
    assert((p.pos.y - q.pos.y) * (p.pos.y - q.pos.y) == (q.pos.y - p.pos.y) * (q.pos.y - p.pos.y))
        by (nonlinear_arith);
}

/// Law: a particle strictly within another's radius, but not on top of
/// it, receives a nonzero force pointing away from the other: each
/// component has the sign of the matching displacement component and at
/// least one component is nonzero.
pub proof fn law_near_pair_force_points_away(p: ParticleModel, q: ParticleModel)
    requires
        p.idx != q.idx,
        0 < dist_sq(p.pos, q.pos) < p.radius * p.radius,
    ensures
        repel_delta(p, q).x * (p.pos.x - q.pos.x) >= 0,
        repel_delta(p, q).y * (p.pos.y - q.pos.y) >= 0,
        repel_delta(p, q) != (V2 { x: 0, y: 0 }),
{
    let dx = p.pos.x - q.pos.x;
    let dy = p.pos.y - q.pos.y;
    let d2 = dx * dx + dy * dy;
    assert(dx * dx >= 0) by (nonlinear_arith);
    assert(dy * dy >= 0) by (nonlinear_arith);
    let len = isqrt_spec(d2 as nat) as int;
    lemma_isqrt_pos(d2 as nat);
    lemma_isqrt_bounds(d2 as nat);
    lemma_scaled_toward_bounded(dx, d2, len);
    lemma_scaled_toward_bounded(dy, d2, len);
    lemma_sign_product(dx, len);
    lemma_sign_product(dy, len);
    let ax = if dx >= 0 {
        dx
    } else {
        -dx
    };
    let ay = if dy >= 0 {
        dy
    } else {
        -dy
    };
    let m = if ax >= ay {
        ax
    } else {
        ay
    };
    assert(m >= 1);
    assert(d2 <= 2 * (m * m)) by (nonlinear_arith)
        requires
            d2 == dx * dx + dy * dy,
            (ax == dx || ax == -dx) && ax >= 0,
            (ay == dy || ay == -dy) && ay >= 0,
            m >= ax && m >= ay && (m == ax || m == ay),
    ;
    assert(len * len >= 0) by (nonlinear_arith);
    assert(len * len <= d2);
    assert(len < 2 * m) by (nonlinear_arith)
        requires
            len * len <= d2,
            d2 <= 2 * (m * m),
            m >= 1,
            len >= 1,
    ;
    // the dominant component survives the rounding: m * 50 / len >= 25
    assert(25 * len <= m * 50) by (nonlinear_arith)
        requires
            len < 2 * m,
            len >= 1,
    ;
    lemma_div_is_ordered(25 * len, m * 50, len);
    lemma_div_by_multiple(25, len);
    assert((25 * len) / len == 25);
    assert((m * 50) / len >= 25);
    if ax >= ay {
        assert(scaled_toward(dx, len) != 0);
    } else {
        assert(scaled_toward(dy, len) != 0);
    }
}

/// `scaled_toward` keeps the sign of its displacement argument.
proof fn lemma_sign_product(d: int, len: int)
    requires
        len >= 1,
    ensures
        scaled_toward(d, len) * d >= 0,
{
    if d >= 0 {
        lemma_div_pos_is_pos(d * 50, len);
        assert(scaled_toward(d, len) * d >= 0) by (nonlinear_arith)
            requires
                scaled_toward(d, len) >= 0,
                d >= 0,
        ;
    } else {
        lemma_div_pos_is_pos((-d) * 50, len);
        assert(scaled_toward(d, len) * d >= 0) by (nonlinear_arith)
            requires
                scaled_toward(d, len) <= 0,
                d < 0,
        ;
    }
}

} // verus!
