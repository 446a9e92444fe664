use vstd::prelude::*;

verus! {

/// Positions, radii and the repulsion arithmetic stay within this bound
/// so that squared distances fit in an `i64` (10^9 fixed-point units,
/// i.e. 10^7 display units).
pub const POS_LIMIT: i64 = 1_000_000_000;

/// The shared configuration the panel edits between frames: every spawn
/// samples it, no population ever writes it. Radius and color are
/// fixed-point (100 units stand for 1.0), resolution is the segment
/// count a circle is drawn with.
#[derive(Clone, Copy, Debug, PartialEq, Eq, Structural)]
pub struct Config {
    pub radius: i64,
    pub hue: i64,
    pub saturation: i64,
    pub value: i64,
    pub resolution: u64,
}

/// The mathematical value of a `Config`.
pub ghost struct ConfigModel {
    pub radius: int,
    pub hue: int,
    pub saturation: int,
    pub value: int,
    pub resolution: int,
}

impl View for Config {
    type V = ConfigModel;

    open spec fn view(&self) -> ConfigModel {
        ConfigModel {
            radius: self.radius as int,
            hue: self.hue as int,
            saturation: self.saturation as int,
            value: self.value as int,
            resolution: self.resolution as int,
        }
    }
}

/// What the panel guarantees of the configuration: a positive, bounded
/// radius and at least one polygon segment.
pub open spec fn config_wf(c: ConfigModel) -> bool {
    &&& 0 < c.radius <= POS_LIMIT as int
    &&& 1 <= c.resolution
}

impl Config {
    /// The initial brew as a mathematical value: radius 40.0, hue 10.0,
    /// saturation 0.5, value 1.0, ten segments.
    pub open spec fn spec_default() -> ConfigModel {
        ConfigModel { radius: 4000, hue: 1000, saturation: 50, value: 100, resolution: 10 }
    }

    /// The initial brew.
    pub fn new() -> (c: Config)
        ensures
            c@ == Config::spec_default(),
            config_wf(c@),
    {
        Config { radius: 4000, hue: 1000, saturation: 50, value: 100, resolution: 10 }
    }
}

} // verus!
