//! A run from configuration to what a renderer needs: the trajectories in
//! the order of their starts, and the viewport that frames them.
use crate::batch::create_datasets;
use crate::batch::is_batch;
use crate::batch::is_member;
use crate::batch::is_start;
use crate::bounds::decide_bounds;
use crate::bounds::extent_of;
use crate::bounds::extent_through;
use crate::bounds::frames;
use crate::bounds::in_reach;
use crate::bounds::is_empty;
use crate::bounds::is_extent;
use crate::bounds::Extent;
use crate::bounds::Viewport;
use crate::config::Config;
use crate::error::ChartError;
use crate::integrate::advances;
use crate::integrate::is_dataset;
use crate::integrate::lemma_abscissae_rise;
use crate::integrate::total;
use crate::point::Point;
use crate::scalar::Scalar;
use vstd::prelude::*;

verus! {

/// What is to be drawn.
#[derive(Debug)]
pub struct Chart {
    /// The trajectories, at the indices of their starts.
    pub datasets: Vec<Vec<Point>>,
    /// The bounds of the coordinate system.
    pub viewport: Viewport,
}

/// `viewport` frames the points of `datasets`: it is their extent, widened
/// by one on each side with `sum` as the addition.
pub open spec fn is_viewport<A: Fn(Scalar, Scalar) -> Scalar>(
    sum: A,
    datasets: Seq<Vec<Point>>,
    viewport: Viewport,
) -> bool {
    match extent_through(datasets, datasets.len() as int, 0) {
        Some(extent) => is_extent(datasets, extent) && frames(sum, extent, viewport),
        None => false,
    }
}

/// Where the step size advances, the trajectories of a run extend to the
/// right of the `x` that they all start at: the least abscissa of their
/// points is the run's `start_x`.
pub proof fn lemma_run_begins_at_start<D, A, M>(
    config: Config,
    derivative_y: D,
    sum: A,
    product: M,
    datasets: Seq<Vec<Point>>,
    extent: Extent,
) where
    D: Fn(Scalar, Scalar) -> Scalar,
    A: Fn(Scalar, Scalar) -> Scalar,
    M: Fn(Scalar, Scalar) -> Scalar,

    requires
        is_batch(config, derivative_y, sum, product, datasets),
        is_extent(datasets, extent),
        advances(sum, config.step_size, config.policy(), config.start_x),
    ensures
        extent.min_x == config.start_x,
{
    let rows = datasets.len() as int;
    let (a, b) = choose|a: int, b: int| #[trigger]
        in_reach(datasets, rows, 0, a, b) && datasets[a]@[b].x == extent.min_x;
    let points = datasets[a]@;
    assert(is_member(config, derivative_y, sum, product, a as u32, points));
    let start = choose|start: Point| #[trigger]
        is_start(config, product, a as u32, start) && is_dataset(
            derivative_y,
            sum,
            product,
            config.step_size,
            config.policy(),
            start,
            points,
        );
    assert(in_reach(datasets, rows, 0, a, 0));
    assert(config.policy().admits(points[0]));
    if b > 0 {
        lemma_abscissae_rise(
            derivative_y,
            sum,
            product,
            config.step_size,
            config.policy(),
            start,
            points,
            0,
            b,
        );
    }
}

/// The viewport that frames all points of `datasets`, or `EmptyResult` where
/// there is no point.
pub fn viewport_of<A: Fn(Scalar, Scalar) -> Scalar>(datasets: &Vec<Vec<Point>>, sum: &A) -> (r:
    Result<Viewport, ChartError>)
    requires
        total(*sum),
    ensures
        match r {
            Ok(viewport) => is_viewport(*sum, datasets@, viewport),
            Err(e) => e == ChartError::EmptyResult && is_empty(datasets@),
        },
{
    match extent_of(datasets) {
        Ok(extent) => {
            let viewport = decide_bounds(
                (extent.min_x, extent.max_x),
                (extent.min_y, extent.max_y),
                sum,
            );
            Ok(viewport)
        },
        Err(e) => Err(e),
    }
}

/// Checks the configuration, integrates its trajectories and frames them.
///
/// A configuration with a fault is refused before anything is integrated.
/// Trajectories without a single point are refused afterwards.
pub fn plan_chart<D, A, M>(config: &Config, derivative_y: &D, sum: &A, product: &M) -> (r: Result<
    Chart,
    ChartError,
>) where
    D: Fn(Scalar, Scalar) -> Scalar + Sync,
    A: Fn(Scalar, Scalar) -> Scalar + Sync,
    M: Fn(Scalar, Scalar) -> Scalar + Sync,

    requires
        total(*derivative_y),
        total(*sum),
        total(*product),
    ensures
        config.fault() matches Some(fault) ==> r matches Err(e) && e == ChartError::Configuration(
            fault,
        ),
        config.fault() is None ==> match r {
            Ok(chart) => {
                &&& is_batch(*config, *derivative_y, *sum, *product, chart.datasets@)
                &&& is_viewport(*sum, chart.datasets@, chart.viewport)
            },
            Err(e) => {
                &&& e == ChartError::EmptyResult
                &&& exists|datasets: Seq<Vec<Point>>| #[trigger]
                    is_batch(*config, *derivative_y, *sum, *product, datasets) && is_empty(
                        datasets,
                    )
            },
        },
{
    match create_datasets(config, derivative_y, sum, product) {
        Err(fault) => Err(ChartError::Configuration(fault)),
        Ok(datasets) => {
            match viewport_of(&datasets, sum) {
                Ok(viewport) => Ok(Chart { datasets, viewport }),
                Err(e) => Err(e),
            }
        },
    }
}

} // verus!
