//! Waveform and filter-shape selectors of the built-in synthesizers, effects and
//! the parametric equalizer view.

use vstd::prelude::*;

verus! {

/// Waveform of the low-frequency oscillator.
#[derive(Clone, Copy, Debug, PartialEq, Eq, Structural)]
pub enum LfoWaveform {
    Sine,
    Triangle,
}

/// The LFO shape parameter as the user picks it.
#[derive(Clone, Copy, Debug, PartialEq, Eq, Structural)]
pub enum LfoShape {
    Sine,
    Triangle,
}

impl Default for LfoShape {
    fn default() -> (s: Self)
        ensures
            s == LfoShape::Sine,
    {
        LfoShape::Sine
    }
}

impl LfoShape {
    /// The oscillator waveform this shape selects.
    pub fn to_waveform(self) -> (w: LfoWaveform)
        ensures
            w == match self {
                LfoShape::Sine => LfoWaveform::Sine,
                LfoShape::Triangle => LfoWaveform::Triangle,
            },
    {
        match self {
            LfoShape::Sine => LfoWaveform::Sine,
            LfoShape::Triangle => LfoWaveform::Triangle,
        }
    }
}

/// Response of the auto-filter effect.
#[derive(Debug, Clone, Copy, PartialEq, Eq, Structural)]
pub enum FilterMode {
    LowPass,
    BandPass,
    HighPass,
}

impl FilterMode {
    /// The mode for a choice index: 1 is band-pass, 2 is high-pass, any other
    /// index low-pass.
    pub fn from_index(index: usize) -> (m: Self)
        ensures
            m == if index == 1 {
                FilterMode::BandPass
            } else if index == 2 {
                FilterMode::HighPass
            } else {
                FilterMode::LowPass
            },
    {
        match index {
            1 => Self::BandPass,
            2 => Self::HighPass,
            _ => Self::LowPass,
        }
    }
}

/// Kind of a band of the parametric equalizer.
#[derive(Debug, Clone, Copy, PartialEq, Eq, Structural)]
pub enum ParametricEqBandKind {
    LowShelf,
    Peak,
    HighShelf,
}

} // verus!
