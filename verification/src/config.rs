//! What a run is configured with, and when a configuration is refused.
use crate::error::ConfigurationError;
use crate::policy::EndCondition;
use crate::scalar::Scalar;
use vstd::prelude::*;

verus! {

/// The pattern of `0.001`, the step size of the default configuration.
pub const DEFAULT_STEP_BITS: u64 = 0x3f50_624d_d2f1_a9fc;

/// The pattern of `10.0`, the spread of the default configuration.
pub const DEFAULT_SPREAD_BITS: u64 = 0x4024_0000_0000_0000;

/// The pattern of `150.0`, both bounds of the default configuration.
pub const DEFAULT_BOUND_BITS: u64 = 0x4062_c000_0000_0000;

/// Width and height of a canvas, in pixels.
#[derive(Clone, Copy, Debug, PartialEq, Eq, Structural)]
pub struct CanvasSize {
    pub width: u32,
    pub height: u32,
}

/// The options of a run.
#[derive(Debug)]
pub struct Config {
    /// How many trajectories to integrate.
    pub trajectory_count: u32,
    /// The fixed step in `x`.
    pub step_size: Scalar,
    /// The distance in `y` between the starts of neighbouring trajectories.
    pub y_spread: Scalar,
    /// The `x` at which every trajectory starts.
    pub start_x: Scalar,
    /// The bound on `x`, if any.
    pub max_x: Option<Scalar>,
    /// The bound on `|y|`, if any.
    pub max_abs_y: Option<Scalar>,
    /// The most points that one trajectory may hold.
    pub max_points: usize,
    /// The size of the canvas that the chart is drawn on.
    pub canvas_size: CanvasSize,
    /// Where the image is written.
    pub output_path: String,
}

impl Config {
    /// The stopping rule that every trajectory of the run is held to.
    pub open spec fn policy(&self) -> EndCondition {
        EndCondition {
            max_x: self.max_x,
            max_abs_y: self.max_abs_y,
            max_points: self.max_points,
        }
    }

    /// What is wrong with this configuration, if anything: the first that
    /// holds of a step size that is not positive, a count of zero, and a
    /// bound that is NaN.
    pub open spec fn fault(&self) -> Option<ConfigurationError> {
        if !self.step_size.greater(Scalar { bits: 0 }) {
            Some(ConfigurationError::StepNotPositive)
        } else if self.trajectory_count == 0 {
            Some(ConfigurationError::NoTrajectories)
        } else if (self.max_x matches Some(bound) && bound.is_nan()) || (self.max_abs_y matches Some(
            bound,
        ) && bound.is_nan()) {
            Some(ConfigurationError::MalformedBound)
        } else {
            None
        }
    }

    /// The stopping rule that every trajectory of the run is held to.
    pub fn end_condition(&self) -> (rule: EndCondition)
        ensures
            rule == self.policy(),
    {
        EndCondition {
            max_x: self.max_x,
            max_abs_y: self.max_abs_y,
            max_points: self.max_points,
        }
    }

    /// Accepts the configuration or says what is wrong with it.
    pub fn validate(&self) -> (r: Result<(), ConfigurationError>)
        ensures
            match self.fault() {
                Some(fault) => r == Err::<(), ConfigurationError>(fault),
                None => r.is_ok(),
            },
    {
        if !self.step_size.gt(Scalar::zero()) {
            return Err(ConfigurationError::StepNotPositive);
        }
        if self.trajectory_count == 0 {
            return Err(ConfigurationError::NoTrajectories);
        }
        if bound_is_nan(self.max_x) || bound_is_nan(self.max_abs_y) {
            return Err(ConfigurationError::MalformedBound);
        }
        Ok(())
    }
}

/// Whether a bound is configured and NaN.
fn bound_is_nan(bound: Option<Scalar>) -> (r: bool)
    ensures
        r == (bound matches Some(b) && b.is_nan()),
{
    match bound {
        Some(b) => b.is_not_a_number(),
        None => false,
    }
}

impl Clone for Config {
    fn clone(&self) -> (copy: Config)
        ensures
            copy == *self,
    {
        Config {
            trajectory_count: self.trajectory_count,
            step_size: self.step_size,
            y_spread: self.y_spread,
            start_x: self.start_x,
            max_x: self.max_x,
            max_abs_y: self.max_abs_y,
            max_points: self.max_points,
            canvas_size: self.canvas_size,
            output_path: self.output_path.clone(),
        }
    }
}

impl Default for Config {
    /// The default configuration: ten trajectories with step `0.001`,
    /// starting at `x = 0` and spread by `10.0` in `y`, each bounded by `150.0`
    /// in `x` and in `|y|` and not capped in length, drawn on a canvas of
    /// 1280 by 960 pixels.
    fn default() -> (config: Config)
        ensures
            config.trajectory_count == 10,
            config.step_size.bits == DEFAULT_STEP_BITS,
            config.y_spread.bits == DEFAULT_SPREAD_BITS,
            config.start_x.bits == 0,
            config.max_x == Some(Scalar { bits: DEFAULT_BOUND_BITS }),
            config.max_abs_y == Some(Scalar { bits: DEFAULT_BOUND_BITS }),
            config.max_points == usize::MAX,
            config.canvas_size == (CanvasSize { width: 1280, height: 960 }),
            config.output_path@ == "output.png"@,
            config.fault() is None,
    {
        Config {
            trajectory_count: 10,
            step_size: Scalar { bits: DEFAULT_STEP_BITS },
            y_spread: Scalar { bits: DEFAULT_SPREAD_BITS },
            start_x: Scalar { bits: 0 },
            max_x: Some(Scalar { bits: DEFAULT_BOUND_BITS }),
            max_abs_y: Some(Scalar { bits: DEFAULT_BOUND_BITS }),
            max_points: usize::MAX,
            canvas_size: CanvasSize { width: 1280, height: 960 },
            output_path: "output.png".to_owned(),
        }
    }
}

} // verus!
