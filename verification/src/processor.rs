//! The settings from which a routing graph is compiled.
//!
//! Levels and times (`gain`, `delay`, `q`) are carried through to the
//! filter definitions unchanged; `N` is the number type that holds them.

use vstd::prelude::*;

verus! {

/// A speaker of the layout.
#[derive(Clone, Debug, PartialEq)]
pub struct Speaker<N> {
    /// The name, which identifies the speaker.
    pub speaker: String,
    /// The crossover frequency in Hz; `None` for a full-range speaker.
    pub crossover: Option<i32>,
    /// The delay in milliseconds.
    pub delay: N,
    /// The gain in dB.
    pub gain: N,
    pub is_subwoofer: bool,
}

/// One band of the parametric equalizer of a speaker.
#[derive(Clone, Debug, PartialEq)]
pub struct Filter<N> {
    /// The centre frequency in Hz.
    pub freq: i32,
    pub gain: N,
    pub q: N,
    /// The name of the speaker that the band is applied to.
    pub speaker: String,
}

/// The hardware that captures and plays the audio.
#[derive(Clone, Copy, Debug, PartialEq, Eq, Structural)]
pub enum DeviceType {
    OktoDac8,
    HdmiOsmcPi,
    ToppingDm7,
    MotuMk5,
}

/// What a routing graph is compiled from.
#[derive(Clone, Debug, PartialEq)]
pub struct ProcessorSettingsForCamilla<N> {
    pub filters: Vec<Filter<N>>,
    pub speakers: Vec<Speaker<N>>,
    pub device: DeviceType,
}

/// No two speakers share a name.
pub open spec fn names_distinct<N>(speakers: Seq<Speaker<N>>) -> bool {
    forall|i: int, j: int|
        0 <= i < j < speakers.len() ==> (#[trigger] speakers[i]).speaker@ != (
        #[trigger] speakers[j]).speaker@
}

/// The speaker is a main speaker with a crossover frequency.
pub open spec fn is_split<N>(speaker: Speaker<N>) -> bool {
    !speaker.is_subwoofer && speaker.crossover is Some
}

/// The number of main speakers with a crossover frequency among the
/// first `n` speakers.
pub open spec fn split_speakers_before<N>(speakers: Seq<Speaker<N>>, n: int) -> nat
    decreases n,
{
    if n <= 0 {
        0
    } else if is_split(speakers[n - 1]) {
        split_speakers_before(speakers, n - 1) + 1
    } else {
        split_speakers_before(speakers, n - 1)
    }
}

} // verus!
