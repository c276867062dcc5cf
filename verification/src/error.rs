//! The ways in which a run fails before anything is drawn.
use vstd::prelude::*;

verus! {

/// Why a configuration is refused.
#[derive(Clone, Copy, Debug, PartialEq, Eq, Structural)]
pub enum ConfigurationError {
    /// The step size is not greater than zero (a NaN is not).
    StepNotPositive,
    /// No trajectory is asked for.
    NoTrajectories,
    /// A configured bound is NaN.
    MalformedBound,
}

/// Why a run yields no chart.
#[derive(Clone, Copy, Debug, PartialEq, Eq, Structural)]
pub enum ChartError {
    /// The configuration was refused; nothing was integrated.
    Configuration(ConfigurationError),
    /// The trajectories hold no point at all, so there is nothing to frame.
    EmptyResult,
}

impl ConfigurationError {
    /// What is wrong, in words.
    pub open spec fn text(self) -> Seq<char> {
        match self {
            ConfigurationError::StepNotPositive => "the step size must be greater than zero"@,
            ConfigurationError::NoTrajectories => "at least one trajectory is needed"@,
            ConfigurationError::MalformedBound => "a configured bound is not a number"@,
        }
    }

    /// What is wrong, in words.
    pub fn message(&self) -> (words: &'static str)
        ensures
            words@ == self.text(),
    {
        match self {
            ConfigurationError::StepNotPositive => "the step size must be greater than zero",
            ConfigurationError::NoTrajectories => "at least one trajectory is needed",
            ConfigurationError::MalformedBound => "a configured bound is not a number",
        }
    }
}

impl ChartError {
    /// Why there is no chart, in words.
    pub open spec fn text(self) -> Seq<char> {
        match self {
            ChartError::Configuration(fault) => fault.text(),
            ChartError::EmptyResult => "the trajectories hold no point"@,
        }
    }

    /// Why there is no chart, in words.
    pub fn message(&self) -> (words: &'static str)
        ensures
            words@ == self.text(),
    {
        match self {
            ChartError::Configuration(fault) => fault.message(),
            ChartError::EmptyResult => "the trajectories hold no point",
        }
    }
}

} // verus!
