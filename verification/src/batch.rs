//! A family of trajectories: one integration for each start of a run.
//!
//! The integrations share nothing but their inputs, so they are handed to
//! rayon's thread pool. Trajectory `i` of the result is the one that starts
//! at `(start_x, i * y_spread)`, whichever integration ended first.
use crate::config::Config;
use crate::error::ConfigurationError;
use crate::integrate::create_dataset;
use crate::integrate::is_dataset;
use crate::integrate::lemma_dataset_unique;
use crate::integrate::single_valued;
use crate::integrate::total;
use crate::point::Point;
use crate::scalar::Scalar;
use crate::value::lemma_stands_for_one_scalar;
use rayon::iter::IntoParallelIterator;
use rayon::iter::ParallelIterator;
use vstd::prelude::*;

verus! {

/// `start` is where trajectory `index` of a run begins: at the run's
/// `start_x`, and at the `y` that `product` returns for `index` and the run's
/// spread.
pub open spec fn is_start<M: Fn(Scalar, Scalar) -> Scalar>(
    config: Config,
    product: M,
    index: u32,
    start: Point,
) -> bool {
    &&& start.x == config.start_x
    &&& exists|position: Scalar| #[trigger]
        position.stands_for(index as nat) && call_ensures(
            product,
            (position, config.y_spread),
            start.y,
        )
}

/// `points` is trajectory `index` of a run: the trajectory from the start
/// with that index, under the run's step size and stopping rule.
pub open spec fn is_member<D, A, M>(
    config: Config,
    derivative_y: D,
    sum: A,
    product: M,
    index: u32,
    points: Seq<Point>,
) -> bool where
    D: Fn(Scalar, Scalar) -> Scalar,
    A: Fn(Scalar, Scalar) -> Scalar,
    M: Fn(Scalar, Scalar) -> Scalar,
 {
    exists|start: Point| #[trigger]
        is_start(config, product, index, start) && is_dataset(
            derivative_y,
            sum,
            product,
            config.step_size,
            config.policy(),
            start,
            points,
        )
}

/// `datasets` holds the trajectories of a run, one for each index below the
/// run's count, at that index.
pub open spec fn is_batch<D, A, M>(
    config: Config,
    derivative_y: D,
    sum: A,
    product: M,
    datasets: Seq<Vec<Point>>,
) -> bool where
    D: Fn(Scalar, Scalar) -> Scalar,
    A: Fn(Scalar, Scalar) -> Scalar,
    M: Fn(Scalar, Scalar) -> Scalar,
 {
    &&& datasets.len() == config.trajectory_count
    &&& forall|i: int|
        0 <= i < datasets.len() ==> is_member(
            config,
            derivative_y,
            sum,
            product,
            i as u32,
            #[trigger] datasets[i]@,
        )
}

/// Calls `rayon::iter::IntoParallelIterator::into_par_iter` on the range
/// `0..count`, `rayon::iter::ParallelIterator::map` with `f` on that, and
/// `rayon::iter::ParallelIterator::collect` into a `Vec` on the outcome.
///
/// Believed of rayon, not proved: the vector has one item for each index of
/// the range, and the item at index `i` is what a call of `f` on `i`
/// returned, in whatever order the calls were made.
#[verifier::external_body]
fn par_map_range<T: Send, F: Fn(u32) -> T + Sync + Send>(count: u32, f: F) -> (out: Vec<T>)
    requires
        forall|i: u32| i < count ==> call_requires(f, (i,)),
    ensures
        out@.len() == count,
        forall|i: int| 0 <= i < count ==> call_ensures(f, (i as u32,), #[trigger] out@[i]),
{
    (0..count).into_par_iter().map(f).collect()
}

/// Where trajectory `index` of a run begins.
pub fn start_point<M: Fn(Scalar, Scalar) -> Scalar>(config: &Config, index: u32, product: &M) -> (start:
    Point)
    requires
        total(*product),
    ensures
        is_start(*config, *product, index, start),
{
    let position: Scalar = Scalar::from_u32(index);
    let y: Scalar = product(position, config.y_spread);
    Point { x: config.start_x, y }
}

/// Integrates trajectory `index` of a run.
pub fn create_member<D, A, M>(
    config: &Config,
    index: u32,
    derivative_y: &D,
    sum: &A,
    product: &M,
) -> (points: Vec<Point>) where
    D: Fn(Scalar, Scalar) -> Scalar,
    A: Fn(Scalar, Scalar) -> Scalar,
    M: Fn(Scalar, Scalar) -> Scalar,

    requires
        total(*derivative_y),
        total(*sum),
        total(*product),
    ensures
        is_member(*config, *derivative_y, *sum, *product, index, points@),
{
    let start: Point = start_point(config, index, product);
    create_dataset(start, config.step_size, config.end_condition(), derivative_y, sum, product)
}

/// Integrates every trajectory of a run, in parallel, and returns them in
/// the order of their indices.
///
/// A configuration with a fault is refused before any integration starts. No
/// single trajectory can fail: one that is empty or short is a result.
pub fn create_datasets<D, A, M>(config: &Config, derivative_y: &D, sum: &A, product: &M) -> (r:
    Result<Vec<Vec<Point>>, ConfigurationError>) where
    D: Fn(Scalar, Scalar) -> Scalar + Sync,
    A: Fn(Scalar, Scalar) -> Scalar + Sync,
    M: Fn(Scalar, Scalar) -> Scalar + Sync,

    requires
        total(*derivative_y),
        total(*sum),
        total(*product),
    ensures
        match config.fault() {
            Some(fault) => r == Err::<Vec<Vec<Point>>, ConfigurationError>(fault),
            None => r matches Ok(datasets) && is_batch(
                *config,
                *derivative_y,
                *sum,
                *product,
                datasets@,
            ),
        },
        single_valued(*derivative_y) && single_valued(*sum) && single_valued(*product)
            ==> forall|other: Seq<Vec<Point>>, i: int|
            r is Ok && 0 <= i < config.trajectory_count && #[trigger] is_batch(
                *config,
                *derivative_y,
                *sum,
                *product,
                other,
            ) ==> (#[trigger] other[i])@ == r->Ok_0@[i]@,
{
    match config.validate() {
        Err(fault) => Err(fault),
        Ok(_) => {
            let run = |index: u32| -> (points: Vec<Point>)
                ensures
                    is_member(*config, *derivative_y, *sum, *product, index, points@),
                { create_member(config, index, derivative_y, sum, product) };
            let datasets = par_map_range(config.trajectory_count, run);
            proof {
                if single_valued(*derivative_y) && single_valued(*sum) && single_valued(*product) {
                    assert forall|other: Seq<Vec<Point>>, i: int|
                        0 <= i < config.trajectory_count && #[trigger] is_batch(
                            *config,
                            *derivative_y,
                            *sum,
                            *product,
                            other,
                        ) implies (#[trigger] other[i])@ == datasets@[i]@ by {
                        lemma_batch_unique(
                            *config,
                            *derivative_y,
                            *sum,
                            *product,
                            other,
                            datasets@,
                            i,
                        );
                    }
                }
            }
            Ok(datasets)
        },
    }
}

/// A run has one start for each index, where the product returns one value
/// for given arguments.
pub proof fn lemma_start_unique<M: Fn(Scalar, Scalar) -> Scalar>(
    config: Config,
    product: M,
    index: u32,
    first: Point,
    second: Point,
)
    requires
        single_valued(product),
        is_start(config, product, index, first),
        is_start(config, product, index, second),
    ensures
        first == second,
{
    let p = choose|position: Scalar| #[trigger]
        position.stands_for(index as nat) && call_ensures(
            product,
            (position, config.y_spread),
            first.y,
        );
    let q = choose|position: Scalar| #[trigger]
        position.stands_for(index as nat) && call_ensures(
            product,
            (position, config.y_spread),
            second.y,
        );
    lemma_stands_for_one_scalar(p, q, index as nat);
}

/// The trajectories of a run are determined by the run, index by index,
/// whatever the order in which they were integrated: two results for one
/// configuration hold the same trajectory at every index, where the
/// derivative, the sum and the product each return one value for given
/// arguments.
pub proof fn lemma_batch_unique<D, A, M>(
    config: Config,
    derivative_y: D,
    sum: A,
    product: M,
    first: Seq<Vec<Point>>,
    second: Seq<Vec<Point>>,
    i: int,
) where
    D: Fn(Scalar, Scalar) -> Scalar,
    A: Fn(Scalar, Scalar) -> Scalar,
    M: Fn(Scalar, Scalar) -> Scalar,

    requires
        single_valued(derivative_y),
        single_valued(sum),
        single_valued(product),
        is_batch(config, derivative_y, sum, product, first),
        is_batch(config, derivative_y, sum, product, second),
        0 <= i < config.trajectory_count,
    ensures
        first.len() == second.len(),
        first[i]@ == second[i]@,
{
    assert(is_member(config, derivative_y, sum, product, i as u32, first[i]@));
    assert(is_member(config, derivative_y, sum, product, i as u32, second[i]@));
    let a = choose|start: Point| #[trigger]
        is_start(config, product, i as u32, start) && is_dataset(
            derivative_y,
            sum,
            product,
            config.step_size,
            config.policy(),
            start,
            first[i]@,
        );
    let b = choose|start: Point| #[trigger]
        is_start(config, product, i as u32, start) && is_dataset(
            derivative_y,
            sum,
            product,
            config.step_size,
            config.policy(),
            start,
            second[i]@,
        );
    lemma_start_unique(config, product, i as u32, a, b);
    lemma_dataset_unique(
        derivative_y,
        sum,
        product,
        config.step_size,
        config.policy(),
        a,
        first[i]@,
        second[i]@,
    );
}

} // verus!
