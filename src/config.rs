//! How a unit reconciles the channel count of its inputs.
use vstd::prelude::*;

verus! {

/// How the number of channels used for mixing is computed.
#[derive(Clone, Copy, Debug, PartialEq, Eq, Structural)]
pub enum ChannelCountMode {
    /// The largest channel count among the inputs.
    Max,
    /// The largest channel count among the inputs, at most `count`.
    ClampedMax,
    /// Exactly `count`.
    Explicit,
}

/// How channels are mapped when the counts differ.
#[derive(Clone, Copy, Debug, PartialEq, Eq, Structural)]
pub enum ChannelInterpretation {
    /// Up-mix and down-mix by speaker layout.
    Speakers,
    /// Fill or drop channels by index.
    Discrete,
}

/// The channel settings a unit is created with.
#[derive(Clone, Copy, Debug, PartialEq, Eq, Structural)]
pub struct ChannelConfigOptions {
    pub count: usize,
    pub mode: ChannelCountMode,
    pub interpretation: ChannelInterpretation,
}

/// The channel settings of a unit.
#[derive(Clone, Copy, Debug, PartialEq, Eq, Structural)]
pub struct ChannelConfig {
    count: usize,
    mode: ChannelCountMode,
    interpretation: ChannelInterpretation,
}

impl ChannelConfig {
    /// The settings given by `options`.
    pub fn from_options(options: ChannelConfigOptions) -> (r: ChannelConfig)
        ensures
            r.count() == options.count,
            r.mode() == options.mode,
            r.interpretation() == options.interpretation,
    {
        ChannelConfig { count: options.count, mode: options.mode, interpretation: options.interpretation }
    }

    pub closed spec fn count(&self) -> usize {
        self.count
    }

    pub closed spec fn mode(&self) -> ChannelCountMode {
        self.mode
    }

    pub closed spec fn interpretation(&self) -> ChannelInterpretation {
        self.interpretation
    }

    /// The channel count used with `Explicit` and as the bound of `ClampedMax`.
    pub fn get_count(&self) -> (r: usize)
        ensures
            r == self.count(),
    {
        self.count
    }

    /// The count mode.
    pub fn get_mode(&self) -> (r: ChannelCountMode)
        ensures
            r == self.mode(),
    {
        self.mode
    }

    /// The interpretation.
    pub fn get_interpretation(&self) -> (r: ChannelInterpretation)
        ensures
            r == self.interpretation(),
    {
        self.interpretation
    }
}

} // verus!
