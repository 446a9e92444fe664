use vstd::prelude::*;
use crate::geom::{Vec2i, V2};
use crate::config::{Config, ConfigModel, config_wf, POS_LIMIT};
use crate::particle::{step_fits, ParticleModel, Variant};
use crate::population::{
    cloud_frame, cloud_frame_fits, cloud_member_fits, cloud_spawn, cloud_wf, grid_fresh,
    grid_updated, models_v2, step_cull, stream_spawn, trail_spawn, CloudModel, GridModel,
    RepellingCloud, StaticGrid, Stream, TrailModel, TrailingCursor, CLOUD_CAP,
};

verus! {

/// Which animation the controller is driving: the idle settings preview
/// or one of the four particle variants. Exactly one is active at a time.
#[derive(Clone, Copy, Debug, PartialEq, Eq, Structural)]
pub enum Mode {
    Setting,
    ShowOne,
    ShowTwo,
    ShowThree,
    ShowFour,
}

/// The external samples one frame consumes: where the stream spawns
/// (top-center of the window), the freshly randomized cloud origin, the
/// pointer position, and the frame's randomly drawn spawn velocity. Only
/// the one the active mode needs is read.
#[derive(Clone, Copy, Debug, PartialEq, Eq, Structural)]
pub struct FrameInput {
    pub stream_origin: Vec2i,
    pub cloud_origin: Vec2i,
    pub cursor: Vec2i,
    pub spawn_vel: Vec2i,
}

/// The mathematical value of a `FrameInput`.
pub ghost struct InputModel {
    pub stream_origin: V2,
    pub cloud_origin: V2,
    pub cursor: V2,
    pub spawn_vel: V2,
}

impl View for FrameInput {
    type V = InputModel;

    open spec fn view(&self) -> InputModel {
        InputModel {
            stream_origin: self.stream_origin@,
            cloud_origin: self.cloud_origin@,
            cursor: self.cursor@,
            spawn_vel: self.spawn_vel@,
        }
    }
}

/// The whole simulation: the shared configuration, one population per
/// variant, and the mode that selects which of them a frame drives.
pub struct Engine {
    pub mode: Mode,
    pub config: Config,
    pub grid: StaticGrid,
    pub stream: Stream,
    pub cloud: RepellingCloud,
    pub trail: TrailingCursor,
}

/// The mathematical value of an `Engine`.
pub ghost struct EngineModel {
    pub mode: Mode,
    pub config: ConfigModel,
    pub grid: GridModel,
    pub stream: Seq<ParticleModel>,
    pub cloud: CloudModel,
    pub trail: TrailModel,
}

impl View for Engine {
    type V = EngineModel;

    open spec fn view(&self) -> EngineModel {
        EngineModel {
            mode: self.mode,
            config: self.config@,
            grid: self.grid@,
            stream: self.stream@,
            cloud: self.cloud@,
            trail: self.trail@,
        }
    }
}

/// The engine's invariant: a well-formed configuration and a well-formed
/// repelling cloud (the other populations need nothing between frames).
pub open spec fn engine_wf(m: EngineModel) -> bool {
    &&& config_wf(m.config)
    &&& cloud_wf(m.cloud)
}

/// Entering the settings preview: nothing but the mode changes.
pub open spec fn enter_setting_spec(m: EngineModel) -> EngineModel {
    EngineModel { mode: Mode::Setting, ..m }
}

/// Entering the static grid: the tableau is rebuilt from scratch at the
/// given anchor, intact.
pub open spec fn enter_grid_spec(
    m: EngineModel,
    x: int,
    y: int,
    cell: int,
    vels: Seq<V2>,
) -> EngineModel {
    EngineModel {
        mode: Mode::ShowOne,
        grid: GridModel { particles: grid_fresh(x, y, cell, vels), intact: true },
        ..m
    }
}

/// Entering the stream: the population persists across re-entry.
pub open spec fn enter_stream_spec(m: EngineModel) -> EngineModel {
    EngineModel { mode: Mode::ShowTwo, ..m }
}

/// Entering the repelling cloud: the population is reset to empty.
pub open spec fn enter_cloud_spec(m: EngineModel) -> EngineModel {
    EngineModel {
        mode: Mode::ShowThree,
        cloud: CloudModel {
            particles: Seq::empty(),
            origin: V2 { x: 0, y: 0 },
            next_idx: 0,
        },
        ..m
    }
}

/// Entering the cursor trail: the population persists across re-entry.
pub open spec fn enter_trail_spec(m: EngineModel) -> EngineModel {
    EngineModel { mode: Mode::ShowFour, ..m }
}

/// The shatter command: only while the static grid is being shown does
/// it let the tableau fall; in every other mode it is a no-op.
pub open spec fn shatter_spec(m: EngineModel) -> EngineModel {
    if m.mode is ShowOne {
        EngineModel { grid: GridModel { intact: false, ..m.grid }, ..m }
    } else {
        m
    }
}

/// One frame of the active population; the inactive populations, the
/// configuration and the mode are untouched.
pub open spec fn frame_spec(m: EngineModel, inp: InputModel) -> EngineModel {
    match m.mode {
        Mode::Setting => m,
        Mode::ShowOne => EngineModel { grid: grid_updated(m.grid), ..m },
        Mode::ShowTwo => EngineModel {
            stream: step_cull(
                m.stream.push(stream_spawn(inp.stream_origin, inp.spawn_vel)),
                Variant::Stream,
            ),
            ..m
        },
        Mode::ShowThree => EngineModel {
            cloud: CloudModel {
                particles: cloud_frame(
                    m.cloud.particles.push(
                        cloud_spawn(inp.cloud_origin, inp.spawn_vel, m.config, m.cloud.next_idx),
                    ),
                ),
                origin: inp.cloud_origin,
                next_idx: m.cloud.next_idx + 1,
            },
            ..m
        },
        Mode::ShowFour => EngineModel {
            trail: TrailModel {
                particles: step_cull(
                    m.trail.particles.push(trail_spawn(inp.cursor, inp.spawn_vel, m.config)),
                    Variant::TrailingCursor,
                ),
                origin: inp.cursor,
            },
            ..m
        },
    }
}

/// The machine-width conditions one frame needs of the engine and its
/// inputs, by active mode.
pub open spec fn frame_fits(m: EngineModel, inp: InputModel) -> bool {
    match m.mode {
        Mode::Setting => true,
        Mode::ShowOne => !m.grid.intact ==> forall|i: int|
            0 <= i < m.grid.particles.len() ==> step_fits(#[trigger] m.grid.particles[i]),
        Mode::ShowTwo => (forall|i: int| 0 <= i < m.stream.len() ==> step_fits(#[trigger] m.stream[i]))
            && step_fits(stream_spawn(inp.stream_origin, inp.spawn_vel)),
        Mode::ShowThree => m.cloud.next_idx < u64::MAX as int && m.cloud.particles.len() < CLOUD_CAP
            && cloud_frame_fits(m.cloud.particles) && cloud_member_fits(
            cloud_spawn(inp.cloud_origin, inp.spawn_vel, m.config, m.cloud.next_idx),
        ),
        Mode::ShowFour => (forall|i: int|
            0 <= i < m.trail.particles.len() ==> step_fits(#[trigger] m.trail.particles[i]))
            && step_fits(trail_spawn(inp.cursor, inp.spawn_vel, m.config)),
    }
}

impl Engine {
    /// The simulation as it starts: settings preview active, the default
    /// brew, a fresh intact grid at the given anchor, an empty stream,
    /// an empty cloud at the window center, and an empty trail at the
    /// given origin.
    pub fn new(
        grid_x: i64,
        grid_y: i64,
        grid_cell: i64,
        grid_vels: &Vec<Vec2i>,
        trail_origin: Vec2i,
    ) -> (e: Engine)
        requires
            grid_vels@.len() == crate::population::GRID_COUNT,
            0 < grid_cell <= POS_LIMIT,
            grid_x + 49 * grid_cell <= i64::MAX,
            grid_y - 49 * grid_cell >= i64::MIN,
        ensures
            e@.mode == Mode::Setting,
            e@.config == Config::spec_default(),
            e@.grid.intact,
            e@.grid.particles == grid_fresh(
                grid_x as int,
                grid_y as int,
                grid_cell as int,
                models_v2(grid_vels@),
            ),
            e@.stream == Seq::<ParticleModel>::empty(),
            e@.cloud.particles == Seq::<ParticleModel>::empty(),
            e@.trail.particles == Seq::<ParticleModel>::empty(),
            e@.trail.origin == trail_origin@,
            engine_wf(e@),
    {
        Engine {
            mode: Mode::Setting,
            config: Config::new(),
            grid: StaticGrid::new(grid_x, grid_y, grid_cell, grid_vels),
            stream: Stream::new(),
            cloud: RepellingCloud::new(Vec2i { x: 0, y: 0 }),
            trail: TrailingCursor::new(trail_origin),
        }
    }

    /// The panel's settings button: back to the idle preview.
    pub fn enter_setting(&mut self)
        ensures
            final(self)@ == enter_setting_spec(old(self)@),
    {
        self.mode = Mode::Setting;
    }

    /// The panel's grid button: rebuild the tableau at the given anchor
    /// and show it.
    pub fn enter_show_one(&mut self, x: i64, y: i64, cell: i64, vels: &Vec<Vec2i>)
        requires
            vels@.len() == crate::population::GRID_COUNT,
            0 < cell <= POS_LIMIT,
            x + 49 * cell <= i64::MAX,
            y - 49 * cell >= i64::MIN,
        ensures
            final(self)@ == enter_grid_spec(
                old(self)@,
                x as int,
                y as int,
                cell as int,
                models_v2(vels@),
            ),
    {
        self.grid = StaticGrid::new(x, y, cell, vels);
        self.mode = Mode::ShowOne;
    }

    /// The panel's stream button: the stream keeps whatever particles it
    /// already holds.
    pub fn enter_show_two(&mut self)
        ensures
            final(self)@ == enter_stream_spec(old(self)@),
    {
        self.mode = Mode::ShowTwo;
    }

    /// The panel's cloud button: the cloud starts over, empty.
    pub fn enter_show_three(&mut self)
        ensures
            final(self)@ == enter_cloud_spec(old(self)@),
    {
        self.cloud = RepellingCloud::new(Vec2i { x: 0, y: 0 });
        self.mode = Mode::ShowThree;
    }

    /// The panel's trail button: the trail keeps whatever particles it
    /// already holds.
    pub fn enter_show_four(&mut self)
        ensures
            final(self)@ == enter_trail_spec(old(self)@),
    {
        self.mode = Mode::ShowFour;
    }

    /// The shatter command (a button press): accepted only while the
    /// grid is being shown, a no-op anywhere else.
    pub fn shatter(&mut self)
        ensures
            final(self)@ == shatter_spec(old(self)@),
    {
        match self.mode {
            Mode::ShowOne => {
                self.grid.shatter();
            },
            _ => {},
        }
    }

    /// One frame tick: drive the active population with the sampled
    /// inputs. Everything else — the other three populations, the
    /// configuration, the mode — stays exactly as it was.
    pub fn frame(&mut self, input: &FrameInput)
        requires
            engine_wf(old(self)@),
            frame_fits(old(self)@, input@),
        ensures
            final(self)@ == frame_spec(old(self)@, input@),
            engine_wf(final(self)@),
    {
        match self.mode {
            Mode::Setting => {},
            Mode::ShowOne => {
                self.grid.update();
            },
            Mode::ShowTwo => {
                self.stream.step(input.stream_origin, input.spawn_vel);
            },
            Mode::ShowThree => {
                self.cloud.step(input.cloud_origin, input.spawn_vel, &self.config);
            },
            Mode::ShowFour => {
                self.trail.step(input.cursor, input.spawn_vel, &self.config);
            },
        }
    }
}

/// Law: switching into the repelling-cloud mode always yields an empty
/// cloud, whatever came before. In particular, leaving it for the grid
/// and coming straight back discards every particle the cloud held.
pub proof fn law_cloud_reset_on_reentry(
    m: EngineModel,
    x: int,
    y: int,
    cell: int,
    vels: Seq<V2>,
)
    ensures
        enter_cloud_spec(enter_grid_spec(m, x, y, cell, vels)).cloud.particles
            == Seq::<ParticleModel>::empty(),
        enter_cloud_spec(enter_grid_spec(m, x, y, cell, vels)).mode == Mode::ShowThree,
{
}

/// Law: no mode switch ever touches the stream's particles: leaving the
/// stream for any other mode and coming back shows exactly the particles
/// that were there before.
pub proof fn law_stream_survives_switches(m: EngineModel, x: int, y: int, cell: int, vels: Seq<V2>)
    ensures
        enter_setting_spec(m).stream == m.stream,
        enter_grid_spec(m, x, y, cell, vels).stream == m.stream,
        enter_stream_spec(m).stream == m.stream,
        enter_cloud_spec(m).stream == m.stream,
        enter_trail_spec(m).stream == m.stream,
        enter_stream_spec(enter_trail_spec(enter_stream_spec(m))).stream == m.stream,
{
}

/// Law: a frame in any mode but the stream's leaves the stream's
/// particles untouched, so the stream keeps aging only while it is the
/// active population.
pub proof fn law_other_mode_frame_preserves_stream(m: EngineModel, inp: InputModel)
    requires
        !(m.mode is ShowTwo),
    ensures
        frame_spec(m, inp).stream == m.stream,
{
}

} // verus!
