//! Scent markers: position, channel, decaying intensity.

use vstd::prelude::*;
use crate::vec2::Vec2;
use crate::{MAX_INTENSITY, MAX_DT};

verus! {

/// The two marker channels; each is stored in its own grid.
#[derive(Clone, Copy, PartialEq, Eq, Structural, Debug)]
pub enum MarkerType {
    ToFood,
    ToHome,
}

impl MarkerType {
    /// The channel an agent in this phase deposits into.
    pub open spec fn spec_opposite(self) -> MarkerType {
        match self {
            MarkerType::ToFood => MarkerType::ToHome,
            MarkerType::ToHome => MarkerType::ToFood,
        }
    }

    /// The other channel.
    pub fn opposite(self) -> (r: MarkerType)
        ensures
            r == self.spec_opposite(),
            r != self,
    {
        match self {
            MarkerType::ToFood => MarkerType::ToHome,
            MarkerType::ToHome => MarkerType::ToFood,
        }
    }
}

/// A scent marker. `intensity` is in sub-units and decays by one sub-unit
/// per millisecond unless the marker is permanent; `initial_intensity` is
/// fixed at creation and only serves fade-ratio rendering.
#[derive(Clone, Copy, PartialEq, Eq, Structural, Debug)]
pub struct Marker {
    pub position: Vec2,
    pub marker_type: MarkerType,
    pub intensity: i64,
    pub initial_intensity: i64,
    pub permanent: bool,
}

impl Marker {
    /// A freshly created marker is within the intensity cap and records
    /// its creation intensity.
    pub open spec fn wf(self) -> bool {
        &&& 0 <= self.intensity <= MAX_INTENSITY
        &&& 0 <= self.initial_intensity <= MAX_INTENSITY
    }

    /// Builds a marker; its initial intensity equals `intensity`.
    pub fn new(position: Vec2, marker_type: MarkerType, intensity: i64, permanent: bool) -> (r: Marker)
        requires
            0 <= intensity <= MAX_INTENSITY,
        ensures
            r == (Marker {
                position,
                marker_type,
                intensity,
                initial_intensity: intensity,
                permanent,
            }),
            r.wf(),
    {
        Marker { position, marker_type, intensity, initial_intensity: intensity, permanent }
    }

    /// The marker after `dt` milliseconds of decay: a permanent marker is
    /// unchanged, any other loses one sub-unit of intensity per
    /// millisecond.
    pub open spec fn spec_decayed(self, dt: int) -> Marker {
        if self.permanent {
            self
        } else {
            Marker { intensity: (self.intensity - dt) as i64, ..self }
        }
    }

    /// Decays the marker in place by `dt` milliseconds.
    pub fn update(&mut self, dt: i64)
        requires
            0 <= dt <= MAX_DT,
            -MAX_INTENSITY <= old(self).intensity <= MAX_INTENSITY,
        ensures
            *final(self) == old(self).spec_decayed(dt as int),
    {
        if !self.permanent {
            self.intensity = self.intensity - dt;
        }
    }
}

} // verus!
