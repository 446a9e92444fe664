use vstd::prelude::*;
use crate::geom::{Vec2i, V2};
use crate::config::{Config, ConfigModel, config_wf, POS_LIMIT};
use crate::interact::{interacted, lemma_repel_sum_bounded};
use crate::particle::{
    in_i64, models, pos_bounded, stepped, step_fits, Particle, ParticleModel, Variant, GRAVITY_Y,
    LIFE_SPAWN,
};

verus! {

/// Velocities stay within this bound across one repelling-cloud frame's
/// machine-width conditions (10^12 fixed-point units).
pub const VEL_LIMIT: i64 = 1_000_000_000_000;

/// How many particles one repelling-cloud frame can hold while its
/// accumulated forces still fit in an `i64`.
pub const CLOUD_CAP: usize = 1_000_000_000;

/// One update-and-cull pass over a population: every particle integrates,
/// and exactly those whose life dropped strictly below zero leave, the
/// others keeping their order.
pub open spec fn step_cull(s: Seq<ParticleModel>, v: Variant) -> Seq<ParticleModel>
    decreases s.len(),
{
    if s.len() == 0 {
        Seq::empty()
    } else {
        let rest = step_cull(s.drop_last(), v);
        let q = stepped(s.last(), v);
        if q.life >= 0 {
            rest.push(q)
        } else {
            rest
        }
    }
}

/// A freshly spawned grid particle: motionless at its cell position with
/// the constant downward bias ready for the shatter, square side and
/// spacing equal to the cell size.
pub open spec fn grid_spawn(pos: V2, vel: V2, cell: int) -> ParticleModel {
    ParticleModel {
        pos,
        vel,
        acc: V2 { x: 0, y: GRAVITY_Y as int },
        life: LIFE_SPAWN as int,
        radius: cell,
        hue: 0,
        saturation: 0,
        value: 0,
        resolution: 0,
        idx: 0,
    }
}

/// A freshly spawned stream particle: the stream reads the live
/// configuration when it is drawn, so nothing visual is baked in.
pub open spec fn stream_spawn(pos: V2, vel: V2) -> ParticleModel {
    ParticleModel {
        pos,
        vel,
        acc: V2 { x: 0, y: GRAVITY_Y as int },
        life: LIFE_SPAWN as int,
        radius: 0,
        hue: 0,
        saturation: 0,
        value: 0,
        resolution: 0,
        idx: 0,
    }
}

/// A freshly spawned cloud particle: no baseline drift (forces are per
/// frame), the configuration snapshot baked in, and a fresh identity.
pub open spec fn cloud_spawn(pos: V2, vel: V2, cfg: ConfigModel, idx: int) -> ParticleModel {
    ParticleModel {
        pos,
        vel,
        acc: V2 { x: 0, y: 0 },
        life: LIFE_SPAWN as int,
        radius: cfg.radius,
        hue: cfg.hue,
        saturation: cfg.saturation,
        value: cfg.value,
        resolution: cfg.resolution,
        idx,
    }
}

/// A freshly spawned trail particle: downward drift and the
/// configuration snapshot baked in.
pub open spec fn trail_spawn(pos: V2, vel: V2, cfg: ConfigModel) -> ParticleModel {
    ParticleModel {
        pos,
        vel,
        acc: V2 { x: 0, y: GRAVITY_Y as int },
        life: LIFE_SPAWN as int,
        radius: cfg.radius,
        hue: cfg.hue,
        saturation: cfg.saturation,
        value: cfg.value,
        resolution: cfg.resolution,
        idx: 0,
    }
}

/// Integrate every particle of `particles` for one frame of `v` and keep
/// exactly the survivors, in order.
fn integrate_and_cull(particles: &Vec<Particle>, v: Variant) -> (out: Vec<Particle>)
    requires
        forall|i: int| 0 <= i < particles@.len() ==> step_fits(#[trigger] models(particles@)[i]),
    ensures
        models(out@) == step_cull(models(particles@), v),
{
    let ghost pm = models(particles@);
    let mut out: Vec<Particle> = Vec::new();
    let n = particles.len();
    for i in 0..n
        invariant
            n == particles@.len(),
            pm == models(particles@),
            forall|j: int| 0 <= j < particles@.len() ==> step_fits(#[trigger] models(particles@)[j]),
            models(out@) == step_cull(pm.take(i as int), v),
    {
        proof {
            assert(pm.take(i as int + 1).drop_last() =~= pm.take(i as int));
            assert(pm.take(i as int + 1).last() == pm[i as int]);
            assert(pm[i as int] == particles@[i as int]@);
        }
        let mut p = particles[i];
        p.update(v);
        if !p.is_dead() {
            out.push(p);
        }
        proof {
            assert(models(out@) =~= step_cull(pm.take(i as int + 1), v));
        }
    }
    proof {
        assert(pm.take(n as int) =~= pm);
    }
    out
}

/// Law: an update-and-cull pass never keeps an expired particle: every
/// survivor's life is nonnegative.
pub proof fn law_cull_removes_expired(s: Seq<ParticleModel>, v: Variant)
    ensures
        forall|j: int| 0 <= j < step_cull(s, v).len() ==> #[trigger] step_cull(s, v)[j].life >= 0,
    decreases s.len(),
{
    if s.len() > 0 {
        law_cull_removes_expired(s.drop_last(), v);
        let rest = step_cull(s.drop_last(), v);
        let q = stepped(s.last(), v);
        assert forall|j: int| 0 <= j < step_cull(s, v).len() implies #[trigger] step_cull(s, v)[j].life
            >= 0 by {
            if j < rest.len() {
                assert(step_cull(s, v)[j] == rest[j]);
            } else {
                assert(step_cull(s, v)[j] == q);
            }
        }
    }
}

/// Law: an update-and-cull pass keeps every particle whose life is still
/// nonnegative after its own update: removal happens exactly when life
/// drops strictly below zero.
pub proof fn law_cull_keeps_living(s: Seq<ParticleModel>, v: Variant, i: int)
    requires
        0 <= i < s.len(),
        stepped(s[i], v).life >= 0,
    ensures
        step_cull(s, v).contains(stepped(s[i], v)),
    decreases s.len(),
{
    let q = stepped(s[i], v);
    if i == s.len() - 1 {
        assert(step_cull(s, v).last() == q);
    } else {
        law_cull_keeps_living(s.drop_last(), v, i);
        let rest = step_cull(s.drop_last(), v);
        let k = choose|k: int| 0 <= k < rest.len() && rest[k] == q;
        assert(step_cull(s, v)[k] == q);
    }
}

/// Every survivor of an update-and-cull pass is the stepped image of
/// some member of the input population.
pub proof fn lemma_cull_origin(s: Seq<ParticleModel>, v: Variant)
    ensures
        forall|j: int|
            0 <= j < step_cull(s, v).len() ==> exists|i: int|
                0 <= i < s.len() && #[trigger] step_cull(s, v)[j] == stepped(s[i], v),
    decreases s.len(),
{
    if s.len() > 0 {
        lemma_cull_origin(s.drop_last(), v);
        let rest = step_cull(s.drop_last(), v);
        assert forall|j: int| 0 <= j < step_cull(s, v).len() implies exists|i: int|
            0 <= i < s.len() && #[trigger] step_cull(s, v)[j] == stepped(s[i], v) by {
            if j < rest.len() {
                let i = choose|i: int|
                    0 <= i < s.drop_last().len() && rest[j] == stepped(s.drop_last()[i], v);
                assert(s.drop_last()[i] == s[i]);
                assert(step_cull(s, v)[j] == stepped(s[i], v));
            } else {
                assert(step_cull(s, v)[j] == stepped(s[s.len() - 1], v));
            }
        }
    }
}

/// The static grid: a 50-by-50 tableau of motionless squares, frozen
/// until an external shatter lets every particle fall.
pub struct StaticGrid {
    pub particles: Vec<Particle>,
    pub intact: bool,
}

/// The mathematical value of a `StaticGrid`.
pub ghost struct GridModel {
    pub particles: Seq<ParticleModel>,
    pub intact: bool,
}

impl View for StaticGrid {
    type V = GridModel;

    open spec fn view(&self) -> GridModel {
        GridModel { particles: models(self.particles@), intact: self.intact }
    }
}

/// The tableau's side: 50 columns by 50 rows.
pub const GRID_SIDE: u64 = 50;

/// How many particles the tableau holds: the full 50-by-50 grid.
pub const GRID_COUNT: u64 = 2500;

/// Where cell `i` of a grid anchored at `(x, y)` sits: left to right,
/// top to bottom, spaced by the cell size.
pub open spec fn grid_cell_pos(x: int, y: int, cell: int, i: int) -> V2 {
    V2 {
        x: x + (i % (GRID_SIDE as int)) * cell,
        y: y - (i / (GRID_SIDE as int)) * cell,
    }
}

/// The whole freshly constructed grid population.
pub open spec fn grid_fresh(x: int, y: int, cell: int, vels: Seq<V2>) -> Seq<ParticleModel> {
    Seq::new(GRID_COUNT as nat, |i: int| grid_spawn(grid_cell_pos(x, y, cell, i), vels[i], cell))
}

impl StaticGrid {
    /// Build the tableau: all 2500 particles at their cell positions, one
    /// initial velocity each (held until the shatter), all intact.
    pub fn new(x: i64, y: i64, cell: i64, vels: &Vec<Vec2i>) -> (g: StaticGrid)
        requires
            vels@.len() == GRID_COUNT,
            0 < cell <= POS_LIMIT,
            x + 49 * cell <= i64::MAX,
            y - 49 * cell >= i64::MIN,
        ensures
            g@.intact,
            g@.particles == grid_fresh(x as int, y as int, cell as int, models_v2(vels@)),
    {
        let mut g = StaticGrid { particles: Vec::new(), intact: true };
        let ghost vm = models_v2(vels@);
        let mut i: u64 = 0;
        while i < GRID_COUNT
            invariant
                i <= GRID_COUNT,
                vels@.len() == GRID_COUNT,
                0 < cell <= POS_LIMIT,
                x + 49 * cell <= i64::MAX,
                y - 49 * cell >= i64::MIN,
                vm == models_v2(vels@),
                g.intact,
                g@.particles.len() == i,
                forall|j: int|
                    0 <= j < i ==> g@.particles[j] == grid_spawn(
                        grid_cell_pos(x as int, y as int, cell as int, j),
                        vm[j],
                        cell as int,
                    ),
            decreases GRID_COUNT - i,
        {
            let col = i % GRID_SIDE;
            let row = i / GRID_SIDE;
            proof {
                assert(0 <= col < 50 && 0 <= row < 50);
                assert(0 <= (col as i64) * cell <= 49 * cell) by (nonlinear_arith)
                    requires
                        0 <= col <= 49,
                        0 < cell,
                ;
                assert(0 <= (row as i64) * cell <= 49 * cell) by (nonlinear_arith)
                    requires
                        0 <= row <= 49,
                        0 < cell,
                ;
            }
            let px = x + (col as i64) * cell;
            let py = y - (row as i64) * cell;
            g.add_particle(px, py, cell, vels[i as usize]);
            i = i + 1;
        }
        proof {
            assert(g@.particles =~= grid_fresh(x as int, y as int, cell as int, vm));
        }
        g
    }

    /// Append one grid particle at `(x, y)`.
    pub fn add_particle(&mut self, x: i64, y: i64, cell: i64, vel: Vec2i)
        ensures
            final(self)@.particles == old(self)@.particles.push(
                grid_spawn((V2 { x: x as int, y: y as int }), vel@, cell as int),
            ),
            final(self)@.intact == old(self)@.intact,
    {
        let p = Particle {
            pos: Vec2i { x, y },
            vel,
            acc: Vec2i { x: 0, y: GRAVITY_Y },
            life: LIFE_SPAWN,
            radius: cell,
            hue: 0,
            saturation: 0,
            value: 0,
            resolution: 0,
            idx: 0,
        };
        self.particles.push(p);
        proof {
            assert(final(self)@.particles =~= old(self)@.particles.push(
                grid_spawn(V2 { x: x as int, y: y as int }, vel@, cell as int),
            ));
        }
    }

    /// Let the tableau fall: from the next update on, every particle
    /// integrates.
    pub fn shatter(&mut self)
        ensures
            final(self)@.particles == old(self)@.particles,
            !final(self)@.intact,
    {
        self.intact = false;
    }

    /// One frame: a frozen tableau does nothing; a shattered one
    /// integrates every particle, and none is ever removed, however far
    /// its life falls.
    pub fn update(&mut self)
        requires
            !old(self).intact ==> forall|i: int|
                0 <= i < old(self)@.particles.len() ==> step_fits(
                    #[trigger] old(self)@.particles[i],
                ),
        ensures
            final(self)@ == grid_updated(old(self)@),
    {
        if self.intact {
            proof {
                assert(final(self)@.particles =~= grid_updated(old(self)@).particles);
            }
            return ;
        }
        let ghost pm = self@.particles;
        let n = self.particles.len();
        let mut out: Vec<Particle> = Vec::new();
        for i in 0..n
            invariant
                n == self.particles@.len(),
                pm == models(self.particles@),
                !self.intact,
                forall|j: int| 0 <= j < pm.len() ==> step_fits(#[trigger] pm[j]),
                out@.len() == i,
                forall|j: int|
                    0 <= j < i as int ==> (#[trigger] out@[j])@ == stepped(
                        pm[j],
                        Variant::StaticGrid,
                    ),
        {
            let mut p = self.particles[i];
            proof {
                assert(pm[i as int] == self.particles@[i as int]@);
            }
            p.update(Variant::StaticGrid);
            out.push(p);
        }
        self.particles = out;
        proof {
            assert(self@.particles =~= grid_updated(old(self)@).particles);
        }
    }
}

/// The grid after one frame: unchanged while intact, every particle
/// stepped once a shatter has landed (no removal, by observed design).
pub open spec fn grid_updated(g: GridModel) -> GridModel {
    if g.intact {
        g
    } else {
        GridModel {
            particles: Seq::new(
                g.particles.len(),
                |i: int| stepped(g.particles[i], Variant::StaticGrid),
            ),
            intact: false,
        }
    }
}

/// Law: once the grid is shattered, every one of its particles picks up
/// speed: each carries the constant downward bias from construction, so
/// its velocity strictly grows in squared magnitude over at least one
/// later update.
pub proof fn law_every_grid_particle_falls(x: int, y: int, cell: int, vels: Seq<V2>, i: int)
    requires
        0 <= i < GRID_COUNT,
    ensures
        exists|k: nat|
            crate::particle::mag2(
                #[trigger] crate::particle::stepped_k(
                    grid_fresh(x, y, cell, vels)[i],
                    Variant::StaticGrid,
                    k,
                ).vel,
            ) < crate::particle::mag2(
                crate::particle::stepped_k(
                    grid_fresh(x, y, cell, vels)[i],
                    Variant::StaticGrid,
                    k + 1,
                ).vel,
            ),
{
    crate::particle::law_shattered_velocity_grows(grid_fresh(x, y, cell, vels)[i]);
}

/// Law: an intact grid is a frozen tableau: however many frames pass,
/// an update moves nothing and changes nothing, until a shatter lands.
pub proof fn law_intact_grid_motionless(g: GridModel)
    requires
        g.intact,
    ensures
        grid_updated(g) == g,
{
}

/// The mathematical values of a sequence of vectors.
pub open spec fn models_v2(s: Seq<Vec2i>) -> Seq<V2> {
    s.map_values(|v: Vec2i| v@)
}

/// The top-spawn stream: one particle appended per frame at the given
/// origin, everything integrated and culled on the spot.
pub struct Stream {
    pub particles: Vec<Particle>,
}

impl View for Stream {
    type V = Seq<ParticleModel>;

    open spec fn view(&self) -> Seq<ParticleModel> {
        models(self.particles@)
    }
}

impl Stream {
    pub fn new() -> (s: Stream)
        ensures
            s@ == Seq::<ParticleModel>::empty(),
    {
        let s = Stream { particles: Vec::new() };
        proof {
            assert(s@ =~= Seq::<ParticleModel>::empty());
        }
        s
    }

    /// One frame: append a fresh particle at `origin` with the drawn
    /// velocity, then integrate and cull the whole population, the fresh
    /// particle included.
    pub fn step(&mut self, origin: Vec2i, vel: Vec2i)
        requires
            forall|i: int| 0 <= i < old(self)@.len() ==> step_fits(#[trigger] old(self)@[i]),
            step_fits(stream_spawn(origin@, vel@)),
        ensures
            final(self)@ == step_cull(old(self)@.push(stream_spawn(origin@, vel@)), Variant::Stream),
    {
        let p = Particle {
            pos: origin,
            vel,
            acc: Vec2i { x: 0, y: GRAVITY_Y },
            life: LIFE_SPAWN,
            radius: 0,
            hue: 0,
            saturation: 0,
            value: 0,
            resolution: 0,
            idx: 0,
        };
        self.particles.push(p);
        proof {
            assert(models(self.particles@) =~= old(self)@.push(stream_spawn(origin@, vel@)));
        }
        let culled = integrate_and_cull(&self.particles, Variant::Stream);
        self.particles = culled;
    }
}

/// The cursor-following trail: one particle per frame at the sampled
/// pointer position, with the configuration snapshot baked in.
pub struct TrailingCursor {
    pub particles: Vec<Particle>,
    pub origin: Vec2i,
}

/// The mathematical value of a `TrailingCursor`.
pub ghost struct TrailModel {
    pub particles: Seq<ParticleModel>,
    pub origin: V2,
}

impl View for TrailingCursor {
    type V = TrailModel;

    open spec fn view(&self) -> TrailModel {
        TrailModel { particles: models(self.particles@), origin: self.origin@ }
    }
}

impl TrailingCursor {
    pub fn new(origin: Vec2i) -> (t: TrailingCursor)
        ensures
            t@.particles == Seq::<ParticleModel>::empty(),
            t@.origin == origin@,
    {
        let t = TrailingCursor { particles: Vec::new(), origin };
        proof {
            assert(t@.particles =~= Seq::<ParticleModel>::empty());
        }
        t
    }

    /// One frame: move the origin to the sampled cursor position, spawn
    /// there from the configuration snapshot, then integrate and cull.
    pub fn step(&mut self, cursor: Vec2i, vel: Vec2i, cfg: &Config)
        requires
            forall|i: int| 0 <= i < old(self)@.particles.len() ==> step_fits(
                #[trigger] old(self)@.particles[i],
            ),
            step_fits(trail_spawn(cursor@, vel@, cfg@)),
        ensures
            final(self)@.origin == cursor@,
            final(self)@.particles == step_cull(
                old(self)@.particles.push(trail_spawn(cursor@, vel@, cfg@)),
                Variant::TrailingCursor,
            ),
    {
        self.origin = cursor;
        let p = Particle {
            pos: cursor,
            vel,
            acc: Vec2i { x: 0, y: GRAVITY_Y },
            life: LIFE_SPAWN,
            radius: cfg.radius,
            hue: cfg.hue,
            saturation: cfg.saturation,
            value: cfg.value,
            resolution: cfg.resolution,
            idx: 0,
        };
        self.particles.push(p);
        proof {
            assert(models(self.particles@) =~= old(self)@.particles.push(
                trail_spawn(cursor@, vel@, cfg@),
            ));
        }
        let culled = integrate_and_cull(&self.particles, Variant::TrailingCursor);
        self.particles = culled;
    }
}


/// What every particle of a repelling cloud looks like between frames:
/// no leftover acceleration (forces are per frame and cleared after
/// integrating), a life that has not expired, and a usable radius.
pub open spec fn cloud_ready(p: ParticleModel) -> bool {
    &&& p.acc == (V2 { x: 0, y: 0 })
    &&& 0 <= p.life <= LIFE_SPAWN as int
    &&& 0 < p.radius <= POS_LIMIT as int
}

/// A cloud particle also carries a spawn identity below the population's
/// counter.
pub open spec fn cloud_particle_wf(p: ParticleModel, next_idx: int) -> bool {
    &&& cloud_ready(p)
    &&& 0 <= p.idx < next_idx
}

/// The mathematical value of a `RepellingCloud`.
pub ghost struct CloudModel {
    pub particles: Seq<ParticleModel>,
    pub origin: V2,
    pub next_idx: int,
}

/// The repelling cloud's invariant: every particle is ready for the next
/// frame and the spawn identities are pairwise distinct, so the
/// interaction pass can tell a particle from every neighbor.
pub open spec fn cloud_wf(c: CloudModel) -> bool {
    &&& forall|i: int|
        0 <= i < c.particles.len() ==> cloud_particle_wf(#[trigger] c.particles[i], c.next_idx)
    &&& forall|i: int, j: int|
        #![trigger c.particles[i], c.particles[j]]
        0 <= i < j < c.particles.len() ==> c.particles[i].idx != c.particles[j].idx
}

/// The machine-width conditions one cloud frame needs of a particle:
/// bounded coordinates (so squared distances fit) and bounded velocity
/// (so the integration step fits).
pub open spec fn cloud_member_fits(p: ParticleModel) -> bool {
    &&& pos_bounded(p)
    &&& -VEL_LIMIT <= p.vel.x <= VEL_LIMIT
    &&& -VEL_LIMIT <= p.vel.y <= VEL_LIMIT
}

pub open spec fn cloud_frame_fits(s: Seq<ParticleModel>) -> bool {
    forall|i: int| 0 <= i < s.len() ==> cloud_member_fits(#[trigger] s[i])
}

/// One whole repelling-cloud frame over the population that already
/// includes the fresh spawn: first the interaction pass against the
/// frozen snapshot, then integration (acceleration cleared) and the cull.
pub open spec fn cloud_frame(spawned: Seq<ParticleModel>) -> Seq<ParticleModel> {
    let pushed = Seq::new(spawned.len(), |i: int| interacted(spawned[i], spawned));
    step_cull(pushed, Variant::RepellingCloud)
}

/// An update-and-cull pass keeps spawn identities pairwise distinct.
pub proof fn lemma_cull_distinct_idx(s: Seq<ParticleModel>, v: Variant)
    requires
        forall|i: int, j: int|
            #![trigger s[i], s[j]]
            0 <= i < j < s.len() ==> s[i].idx != s[j].idx,
    ensures
        forall|i: int, j: int|
            #![trigger step_cull(s, v)[i], step_cull(s, v)[j]]
            0 <= i < j < step_cull(s, v).len() ==> step_cull(s, v)[i].idx != step_cull(s, v)[j].idx,
    decreases s.len(),
{
    if s.len() > 0 {
        lemma_cull_distinct_idx(s.drop_last(), v);
        lemma_cull_origin(s.drop_last(), v);
        let rest = step_cull(s.drop_last(), v);
        let q = stepped(s.last(), v);
        assert forall|i: int, j: int|
            0 <= i < j < step_cull(s, v).len() implies step_cull(s, v)[i].idx != step_cull(
            s,
            v,
        )[j].idx by {
            if j < rest.len() {
                assert(step_cull(s, v)[i] == rest[i] && step_cull(s, v)[j] == rest[j]);
            } else {
                assert(step_cull(s, v)[j] == q);
                assert(step_cull(s, v)[i] == rest[i]);
                let oi = choose|oi: int|
                    0 <= oi < s.drop_last().len() && rest[i] == stepped(s.drop_last()[oi], v);
                assert(s.drop_last()[oi] == s[oi]);
                assert(rest[i].idx == s[oi].idx);
                assert(q.idx == s.last().idx);
            }
        }
    }
}

/// The mutually repelling cloud: one particle spawned per frame at a
/// freshly randomized origin, an O(n-squared) interaction pass against a
/// frozen snapshot of the population, then integration and the cull.
pub struct RepellingCloud {
    pub particles: Vec<Particle>,
    pub origin: Vec2i,
    pub next_idx: u64,
}

impl View for RepellingCloud {
    type V = CloudModel;

    open spec fn view(&self) -> CloudModel {
        CloudModel {
            particles: models(self.particles@),
            origin: self.origin@,
            next_idx: self.next_idx as int,
        }
    }
}

impl RepellingCloud {
    pub fn new(origin: Vec2i) -> (c: RepellingCloud)
        ensures
            c@.particles == Seq::<ParticleModel>::empty(),
            c@.origin == origin@,
            c@.next_idx == 0,
            cloud_wf(c@),
    {
        let c = RepellingCloud { particles: Vec::new(), origin, next_idx: 0 };
        proof {
            assert(c@.particles =~= Seq::<ParticleModel>::empty());
        }
        c
    }

    /// Append one particle at the population's origin, stamped with the
    /// configuration snapshot and a fresh, strictly increasing identity.
    pub fn add_particle(&mut self, vel: Vec2i, cfg: &Config)
        requires
            old(self).next_idx < u64::MAX,
        ensures
            final(self)@.particles == old(self)@.particles.push(
                cloud_spawn(old(self)@.origin, vel@, cfg@, old(self)@.next_idx),
            ),
            final(self)@.origin == old(self)@.origin,
            final(self)@.next_idx == old(self)@.next_idx + 1,
    {
        let p = Particle {
            pos: self.origin,
            vel,
            acc: Vec2i { x: 0, y: 0 },
            life: LIFE_SPAWN,
            radius: cfg.radius,
            hue: cfg.hue,
            saturation: cfg.saturation,
            value: cfg.value,
            resolution: cfg.resolution,
            idx: self.next_idx,
        };
        self.particles.push(p);
        self.next_idx = self.next_idx + 1;
        proof {
            assert(self@.particles =~= old(self)@.particles.push(
                cloud_spawn(old(self)@.origin, vel@, cfg@, old(self)@.next_idx),
            ));
        }
    }

    /// One frame: move the origin to the freshly randomized point, spawn
    /// there, run the interaction pass over a frozen snapshot of the
    /// whole population (the fresh particle included), then integrate
    /// every particle, clear its acceleration, and cull the expired.
    pub fn step(&mut self, new_origin: Vec2i, vel: Vec2i, cfg: &Config)
        requires
            cloud_wf(old(self)@),
            config_wf(cfg@),
            old(self).next_idx < u64::MAX,
            old(self).particles@.len() < CLOUD_CAP,
            cloud_frame_fits(old(self)@.particles),
            cloud_member_fits(cloud_spawn(new_origin@, vel@, cfg@, old(self)@.next_idx)),
        ensures
            final(self)@.origin == new_origin@,
            final(self)@.next_idx == old(self)@.next_idx + 1,
            final(self)@.particles == cloud_frame(
                old(self)@.particles.push(
                    cloud_spawn(new_origin@, vel@, cfg@, old(self)@.next_idx),
                ),
            ),
            cloud_wf(final(self)@),
    {
        self.origin = new_origin;
        self.add_particle(vel, cfg);
        let ghost sm = models(self.particles@);
        let ghost spawnp = cloud_spawn(new_origin@, vel@, cfg@, old(self)@.next_idx);
        proof {
            assert(sm == old(self)@.particles.push(spawnp));
            assert(forall|j: int| 0 <= j < sm.len() - 1 ==> sm[j] == old(self)@.particles[j]);
            assert(sm.last() == spawnp);
            assert forall|j: int| 0 <= j < sm.len() implies cloud_member_fits(#[trigger] sm[j])
                && cloud_ready(sm[j]) by {
                if j < sm.len() - 1 {
                    assert(cloud_particle_wf(old(self)@.particles[j], old(self)@.next_idx));
                }
            }
        }
        let n = self.particles.len();
        let mut out: Vec<Particle> = Vec::new();
        for i in 0..n
            invariant
                n == self.particles@.len(),
                n <= CLOUD_CAP,
                sm == models(self.particles@),
                forall|j: int|
                    0 <= j < sm.len() ==> cloud_member_fits(#[trigger] sm[j]) && cloud_ready(sm[j]),
                out@.len() == i,
                forall|j: int| 0 <= j < i as int ==> (#[trigger] out@[j])@ == interacted(sm[j], sm),
        {
            let mut p = self.particles[i];
            proof {
                assert(sm[i as int] == self.particles@[i as int]@);
                assert(cloud_member_fits(sm[i as int]) && cloud_ready(sm[i as int]));
                assert(in_i64(sm[i as int].acc.x - 50 * sm.len()) && in_i64(
                    sm[i as int].acc.x + 50 * sm.len(),
                ) && in_i64(sm[i as int].acc.y - 50 * sm.len()) && in_i64(
                    sm[i as int].acc.y + 50 * sm.len(),
                ));
            }
            p.intersects(&self.particles);
            out.push(p);
        }
        let ghost pushed = Seq::new(sm.len(), |i: int| interacted(sm[i], sm));
        proof {
            assert(models(out@) =~= pushed);
            assert forall|j: int| 0 <= j < pushed.len() implies step_fits(#[trigger] pushed[j]) by {
                lemma_repel_sum_bounded(sm[j], sm);
            }
            assert forall|j: int| 0 <= j < out@.len() implies step_fits(
                #[trigger] models(out@)[j],
            ) by {
                assert(models(out@)[j] == pushed[j]);
            }
        }
        let culled = integrate_and_cull(&out, Variant::RepellingCloud);
        self.particles = culled;
        proof {
            assert(self@.particles == step_cull(pushed, Variant::RepellingCloud));
            assert(self@.particles == cloud_frame(sm));
            // the invariant survives the frame
            law_cull_removes_expired(pushed, Variant::RepellingCloud);
            lemma_cull_origin(pushed, Variant::RepellingCloud);
            assert forall|i: int, j: int|
                #![trigger pushed[i], pushed[j]]
                0 <= i < j < pushed.len() implies pushed[i].idx != pushed[j].idx by {
                assert(pushed[i].idx == sm[i].idx && pushed[j].idx == sm[j].idx);
                if j < sm.len() - 1 {
                    assert(old(self)@.particles[i].idx != old(self)@.particles[j].idx);
                } else {
                    assert(sm[j].idx == old(self)@.next_idx);
                    assert(cloud_particle_wf(old(self)@.particles[i], old(self)@.next_idx));
                }
            }
            lemma_cull_distinct_idx(pushed, Variant::RepellingCloud);
            let res = self@.particles;
            assert forall|j: int| 0 <= j < res.len() implies cloud_particle_wf(
                #[trigger] res[j],
                self@.next_idx,
            ) by {
                let i = choose|i: int|
                    0 <= i < pushed.len() && res[j] == stepped(
                        pushed[i],
                        Variant::RepellingCloud,
                    );
                assert(pushed[i] == interacted(sm[i], sm));
                assert(cloud_ready(sm[i]));
                if i < sm.len() - 1 {
                    assert(cloud_particle_wf(old(self)@.particles[i], old(self)@.next_idx));
                } else {
                    assert(sm[i].idx == old(self)@.next_idx);
                }
            }
        }
    }
}

/// The stream population after one spawn-and-cull frame for each entry
/// of `spawns`, starting from empty: frame `k` appends `spawns[k]` and
/// then integrates and culls everything.
pub open spec fn stream_run(spawns: Seq<ParticleModel>) -> Seq<ParticleModel>
    decreases spawns.len(),
{
    if spawns.len() == 0 {
        Seq::empty()
    } else {
        step_cull(stream_run(spawns.drop_last()).push(spawns.last()), Variant::Stream)
    }
}

/// One more frame of the stream is one unfolding of `stream_run`: the
/// population after the frame is the previous population, the fresh
/// spawn appended, put through one update-and-cull pass — exactly what
/// `Stream::step` ensures.
pub proof fn lemma_stream_run_unfold(spawns: Seq<ParticleModel>, p: ParticleModel)
    ensures
        stream_run(spawns.push(p)) == step_cull(stream_run(spawns).push(p), Variant::Stream),
{
    assert(spawns.push(p).drop_last() =~= spawns);
    assert(spawns.push(p).last() == p);
}

/// When every particle survives its update, the pass is exactly the
/// stepped population.
proof fn lemma_step_cull_all_alive(s: Seq<ParticleModel>, v: Variant)
    requires
        forall|i: int| 0 <= i < s.len() ==> stepped(#[trigger] s[i], v).life >= 0,
    ensures
        step_cull(s, v).len() == s.len(),
        forall|i: int| 0 <= i < s.len() ==> step_cull(s, v)[i] == stepped(#[trigger] s[i], v),
    decreases s.len(),
{
    if s.len() > 0 {
        assert(forall|i: int|
            0 <= i < s.drop_last().len() ==> stepped(#[trigger] s.drop_last()[i], v).life >= 0);
        lemma_step_cull_all_alive(s.drop_last(), v);
        assert forall|i: int| 0 <= i < s.len() implies step_cull(s, v)[i] == stepped(
            #[trigger] s[i],
            v,
        ) by {
            if i < s.len() - 1 {
                assert(s.drop_last()[i] == s[i]);
            }
        }
    }
}

/// When exactly the oldest particle expires, the pass is the stepped
/// population with its head removed.
proof fn lemma_step_cull_drop_head(s: Seq<ParticleModel>, v: Variant)
    requires
        s.len() >= 1,
        stepped(s[0], v).life < 0,
        forall|i: int| 1 <= i < s.len() ==> stepped(#[trigger] s[i], v).life >= 0,
    ensures
        step_cull(s, v).len() == s.len() - 1,
        forall|i: int| 0 <= i < s.len() - 1 ==> step_cull(s, v)[i] == stepped(#[trigger] s[i + 1], v),
    decreases s.len(),
{
    if s.len() == 1 {
        assert(s.last() == s[0]);
        assert(s.drop_last().len() == 0);
        assert(step_cull(s.drop_last(), v).len() == 0);
        assert(step_cull(s, v).len() == 0);
    } else {
        assert(s.drop_last()[0] == s[0]);
        assert(forall|i: int|
            1 <= i < s.drop_last().len() ==> stepped(#[trigger] s.drop_last()[i], v).life >= 0);
        lemma_step_cull_drop_head(s.drop_last(), v);
        assert(s.last() == s[s.len() - 1]);
        assert(stepped(s.last(), v).life >= 0);
        assert(step_cull(s, v).len() == s.len() - 1);
        assert forall|i: int| 0 <= i < s.len() - 1 implies step_cull(s, v)[i] == stepped(
            #[trigger] s[i + 1],
            v,
        ) by {
            if i < s.len() - 2 {
                assert(s.drop_last()[i + 1] == s[i + 1]);
            } else {
                assert(step_cull(s, v).last() == stepped(s.last(), v));
            }
        }
    }
}

/// Law: a stream driven from empty converges to a fixed population.
/// After `n` frames it holds `min(n, 170)` particles: a particle is
/// updated once in its own spawn frame and removed during its 171st
/// update, when its life (255.0, shrinking by 1.5 per frame) first drops
/// strictly below zero, so it is observable for exactly 170 frames.
/// Along the way, the survivors' lives are exactly the arithmetic ladder
/// `255.0 - 1.5 (len - j)` from the oldest (index 0) to the newest.
pub proof fn law_stream_population_converges(spawns: Seq<ParticleModel>)
    requires
        forall|i: int| 0 <= i < spawns.len() ==> (#[trigger] spawns[i]).life == LIFE_SPAWN as int,
    ensures
        stream_run(spawns).len() == if spawns.len() <= 170 {
            spawns.len() as int
        } else {
            170
        },
        forall|j: int|
            0 <= j < stream_run(spawns).len() ==> (#[trigger] stream_run(spawns)[j]).life == 25500
                - 150 * (stream_run(spawns).len() - j),
    decreases spawns.len(),
{
    if spawns.len() > 0 {
        assert(forall|i: int|
            0 <= i < spawns.drop_last().len() ==> (#[trigger] spawns.drop_last()[i]).life == 25500);
        law_stream_population_converges(spawns.drop_last());
        let prev = stream_run(spawns.drop_last());
        let big = prev.len() as int;
        let s2 = prev.push(spawns.last());
        assert(stream_run(spawns) == step_cull(s2, Variant::Stream));
        assert(forall|i: int| 0 <= i < big ==> (#[trigger] s2[i]).life == 25500 - 150 * (big - i));
        assert(s2[big].life == 25500);
        if big < 170 {
            assert forall|i: int| 0 <= i < s2.len() implies stepped(
                #[trigger] s2[i],
                Variant::Stream,
            ).life >= 0 by {
                if i < big {
                    assert(s2[i].life == 25500 - 150 * (big - i));
                }
            }
            lemma_step_cull_all_alive(s2, Variant::Stream);
            let res = stream_run(spawns);
            assert forall|j: int| 0 <= j < res.len() implies (#[trigger] res[j]).life == 25500 - 150
                * (res.len() - j) by {
                assert(res[j] == stepped(s2[j], Variant::Stream));
                if j < big {
                    assert(s2[j].life == 25500 - 150 * (big - j));
                } else {
                    assert(s2[j].life == 25500);
                }
            }
        } else {
            assert(s2[0].life == 25500 - 150 * big);
            assert(stepped(s2[0], Variant::Stream).life == 25500 - 150 * big - 150 < 0);
            assert forall|i: int| 1 <= i < s2.len() implies stepped(
                #[trigger] s2[i],
                Variant::Stream,
            ).life >= 0 by {
                if i < big {
                    assert(s2[i].life == 25500 - 150 * (big - i));
                }
            }
            lemma_step_cull_drop_head(s2, Variant::Stream);
            let res = stream_run(spawns);
            assert forall|j: int| 0 <= j < res.len() implies (#[trigger] res[j]).life == 25500 - 150
                * (res.len() - j) by {
                assert(res[j] == stepped(s2[j + 1], Variant::Stream));
                if j + 1 < big {
                    assert(s2[j + 1].life == 25500 - 150 * (big - (j + 1)));
                } else {
                    assert(s2[j + 1].life == 25500);
                }
            }
        }
    }
}

} // verus!
