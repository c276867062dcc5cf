//! The stepping engine: forward Euler integration of `dy/dx = f(x, y)`.
//!
//! The derivative and the two rounding operations (sum and product of two
//! binary64 values) are function values of the caller. A contract here says
//! of a result of one of them only that the function returned it for the
//! arguments it was given.
use crate::point::Point;
use crate::policy::EndCondition;
use crate::scalar::Scalar;
use crate::scalar::INFINITY_BITS;
use vstd::prelude::*;

verus! {

/// `f` may be called on every pair of scalars.
pub open spec fn total<F: Fn(Scalar, Scalar) -> Scalar>(f: F) -> bool {
    forall|a: Scalar, b: Scalar| call_requires(f, (a, b))
}

/// `f` returns one value for each pair of arguments.
pub open spec fn single_valued<F: Fn(Scalar, Scalar) -> Scalar>(f: F) -> bool {
    forall|a: Scalar, b: Scalar, r: Scalar, s: Scalar|
        call_ensures(f, (a, b), r) && call_ensures(f, (a, b), s) ==> r == s
}

/// One Euler step leads from `p` to `q`: with the slope that `derivative_y`
/// returns at `p`, `q.y` is the sum of `p.y` and the product of the slope and
/// the step size, and `q.x` is the sum of `p.x` and the step size.
pub open spec fn steps_to<D, A, M>(
    derivative_y: D,
    sum: A,
    product: M,
    step_size: Scalar,
    p: Point,
    q: Point,
) -> bool where
    D: Fn(Scalar, Scalar) -> Scalar,
    A: Fn(Scalar, Scalar) -> Scalar,
    M: Fn(Scalar, Scalar) -> Scalar,
 {
    exists|slope: Scalar, rise: Scalar|
        {
            &&& call_ensures(derivative_y, (p.x, p.y), slope)
            &&& #[trigger] call_ensures(product, (slope, step_size), rise)
            &&& call_ensures(sum, (p.y, rise), q.y)
            &&& call_ensures(sum, (p.x, step_size), q.x)
        }
}

/// `next` is the point that the integration looks at after it has recorded
/// `points`: the start where nothing is recorded yet, else one Euler step
/// from the last recorded point.
pub open spec fn comes_next<D, A, M>(
    derivative_y: D,
    sum: A,
    product: M,
    step_size: Scalar,
    start: Point,
    points: Seq<Point>,
    next: Point,
) -> bool where
    D: Fn(Scalar, Scalar) -> Scalar,
    A: Fn(Scalar, Scalar) -> Scalar,
    M: Fn(Scalar, Scalar) -> Scalar,
 {
    if points.len() == 0 {
        next == start
    } else {
        steps_to(derivative_y, sum, product, step_size, points.last(), next)
    }
}

/// `points` is a run of the integration from `start` that has not stopped
/// yet: it begins at `start`, each point is one Euler step from the one
/// before it, and the stopping rule admits every point.
pub open spec fn is_run<D, A, M>(
    derivative_y: D,
    sum: A,
    product: M,
    step_size: Scalar,
    end_condition: EndCondition,
    start: Point,
    points: Seq<Point>,
) -> bool where
    D: Fn(Scalar, Scalar) -> Scalar,
    A: Fn(Scalar, Scalar) -> Scalar,
    M: Fn(Scalar, Scalar) -> Scalar,
 {
    &&& points.len() <= end_condition.max_points
    &&& points.len() > 0 ==> points[0] == start
    &&& forall|i: int| 0 <= i < points.len() ==> end_condition.admits(#[trigger] points[i])
    &&& forall|i: int|
        0 <= i < points.len() - 1 ==> steps_to(
            derivative_y,
            sum,
            product,
            step_size,
            #[trigger] points[i],
            points[i + 1],
        )
}

/// `points` is the trajectory from `start`: a run that went on until the
/// point that came next was not admitted, or until it held as many points as
/// the stopping rule allows.
pub open spec fn is_dataset<D, A, M>(
    derivative_y: D,
    sum: A,
    product: M,
    step_size: Scalar,
    end_condition: EndCondition,
    start: Point,
    points: Seq<Point>,
) -> bool where
    D: Fn(Scalar, Scalar) -> Scalar,
    A: Fn(Scalar, Scalar) -> Scalar,
    M: Fn(Scalar, Scalar) -> Scalar,
 {
    &&& is_run(derivative_y, sum, product, step_size, end_condition, start, points)
    &&& points.len() == end_condition.max_points || exists|next: Point|
        #[trigger] comes_next(derivative_y, sum, product, step_size, start, points, next)
            && !end_condition.admits(next)
}

/// Advances `current` by one Euler step.
pub fn euler_step<D, A, M>(
    current: Point,
    step_size: Scalar,
    derivative_y: &D,
    sum: &A,
    product: &M,
) -> (next: Point) where
    D: Fn(Scalar, Scalar) -> Scalar,
    A: Fn(Scalar, Scalar) -> Scalar,
    M: Fn(Scalar, Scalar) -> Scalar,

    requires
        total(*derivative_y),
        total(*sum),
        total(*product),
    ensures
        steps_to(*derivative_y, *sum, *product, step_size, current, next),
{
    let slope: Scalar = derivative_y(current.x, current.y);
    let rise: Scalar = product(slope, step_size);
    let y: Scalar = sum(current.y, rise);
    let x: Scalar = sum(current.x, step_size);
    Point { x, y }
}

/// Integrates from `start` with a fixed step and returns the points visited,
/// in the order in which they were visited.
///
/// Before a point is recorded it is held against the stopping rule: the
/// integration ends, and the point is left out, where the point lies beyond
/// a bound or has a coordinate that is NaN or infinite. It also ends when
/// `end_condition.max_points` points are recorded.
pub fn create_dataset<D, A, M>(
    start: Point,
    step_size: Scalar,
    end_condition: EndCondition,
    derivative_y: &D,
    sum: &A,
    product: &M,
) -> (points: Vec<Point>) where
    D: Fn(Scalar, Scalar) -> Scalar,
    A: Fn(Scalar, Scalar) -> Scalar,
    M: Fn(Scalar, Scalar) -> Scalar,

    requires
        total(*derivative_y),
        total(*sum),
        total(*product),
    ensures
        is_dataset(*derivative_y, *sum, *product, step_size, end_condition, start, points@),
        !end_condition.admits(start) ==> points@.len() == 0,
        end_condition.admits(start) && end_condition.max_points > 0 ==> points@.len() > 0,
        forall|i: int|
            0 <= i < points@.len() ==> !end_condition.reached(#[trigger] points@[i])
                && !points@[i].x.degenerate() && !points@[i].y.degenerate(),
        forall|i: int|
            0 <= i < points@.len() - 1 ==> call_ensures(
                *sum,
                (#[trigger] points@[i].x, step_size),
                points@[i + 1].x,
            ),
        single_valued(*derivative_y) && single_valued(*sum) && single_valued(*product)
            ==> forall|other: Seq<Point>| #[trigger]
            is_dataset(*derivative_y, *sum, *product, step_size, end_condition, start, other)
                ==> other == points@,
{
    let mut current: Point = start;
    let mut points: Vec<Point> = Vec::new();
    while points.len() < end_condition.max_points && end_condition.accepts(&current)
        invariant
            total(*derivative_y),
            total(*sum),
            total(*product),
            is_run(*derivative_y, *sum, *product, step_size, end_condition, start, points@),
            comes_next(*derivative_y, *sum, *product, step_size, start, points@, current),
        decreases end_condition.max_points - points.len(),
    {
        let next: Point = euler_step(current, step_size, derivative_y, sum, product);
        points.push(current);
        current = next;
    }
    proof {
        if single_valued(*derivative_y) && single_valued(*sum) && single_valued(*product) {
            assert forall|other: Seq<Point>| #[trigger]
                is_dataset(
                    *derivative_y,
                    *sum,
                    *product,
                    step_size,
                    end_condition,
                    start,
                    other,
                ) implies other == points@ by {
                lemma_dataset_unique(
                    *derivative_y,
                    *sum,
                    *product,
                    step_size,
                    end_condition,
                    start,
                    other,
                    points@,
                );
            }
        }
    }
    points
}

/// Adding the step size moves an abscissa to the right wherever the
/// integration can be: for every finite `x` that is at least `from` and not
/// beyond the bound on `x`, a finite sum of `x` and the step size is greater
/// than `x`.
///
/// This is a demand on the step size as much as on `sum`: rounding lets a
/// sum equal `x` where the step size is small against `x`.
pub open spec fn advances<A: Fn(Scalar, Scalar) -> Scalar>(
    sum: A,
    step_size: Scalar,
    end_condition: EndCondition,
    from: Scalar,
) -> bool {
    forall|x: Scalar, r: Scalar|
        {
            &&& x.is_finite()
            &&& r.is_finite()
            &&& x.at_least(from)
            &&& !(end_condition.max_x matches Some(bound) && x.greater(bound))
            &&& #[trigger] call_ensures(sum, (x, step_size), r)
        } ==> r.greater(x)
}

/// Along a run on which the step size advances, the rank of the abscissa
/// grows by one or more with every point.
proof fn lemma_abscissae_climb<D, A, M>(
    derivative_y: D,
    sum: A,
    product: M,
    step_size: Scalar,
    end_condition: EndCondition,
    start: Point,
    points: Seq<Point>,
    i: int,
) where
    D: Fn(Scalar, Scalar) -> Scalar,
    A: Fn(Scalar, Scalar) -> Scalar,
    M: Fn(Scalar, Scalar) -> Scalar,

    requires
        is_run(derivative_y, sum, product, step_size, end_condition, start, points),
        advances(sum, step_size, end_condition, start.x),
        0 <= i < points.len(),
    ensures
        points[i].x.rank() >= start.x.rank() + i,
        points[i].x.at_least(start.x),
        i > 0 ==> points[i].x.greater(points[i - 1].x),
    decreases i,
{
    assert(end_condition.admits(points[0]));
    assert(end_condition.admits(points[i]));
    if i > 0 {
        lemma_abscissae_climb(
            derivative_y,
            sum,
            product,
            step_size,
            end_condition,
            start,
            points,
            i - 1,
        );
        assert(end_condition.admits(points[i - 1]));
        assert(steps_to(derivative_y, sum, product, step_size, points[i - 1], points[i]));
    }
}

/// The abscissae of a run rise strictly, provided that the step size
/// advances from the start.
pub proof fn lemma_abscissae_rise<D, A, M>(
    derivative_y: D,
    sum: A,
    product: M,
    step_size: Scalar,
    end_condition: EndCondition,
    start: Point,
    points: Seq<Point>,
    i: int,
    j: int,
) where
    D: Fn(Scalar, Scalar) -> Scalar,
    A: Fn(Scalar, Scalar) -> Scalar,
    M: Fn(Scalar, Scalar) -> Scalar,

    requires
        is_run(derivative_y, sum, product, step_size, end_condition, start, points),
        advances(sum, step_size, end_condition, start.x),
        0 <= i < j < points.len(),
    ensures
        points[j].x.greater(points[i].x),
    decreases j - i,
{
    lemma_abscissae_climb(
        derivative_y,
        sum,
        product,
        step_size,
        end_condition,
        start,
        points,
        j,
    );
    if i < j - 1 {
        lemma_abscissae_rise(
            derivative_y,
            sum,
            product,
            step_size,
            end_condition,
            start,
            points,
            i,
            j - 1,
        );
    }
}

/// Integration halts of itself where the step size advances: a run holds no
/// more points than there are binary64 values from the abscissa of its start
/// up to the greatest finite one, and under a bound on `x` no more than there
/// are up to that bound.
pub proof fn lemma_rising_run_is_bounded<D, A, M>(
    derivative_y: D,
    sum: A,
    product: M,
    step_size: Scalar,
    end_condition: EndCondition,
    start: Point,
    points: Seq<Point>,
) where
    D: Fn(Scalar, Scalar) -> Scalar,
    A: Fn(Scalar, Scalar) -> Scalar,
    M: Fn(Scalar, Scalar) -> Scalar,

    requires
        is_run(derivative_y, sum, product, step_size, end_condition, start, points),
        advances(sum, step_size, end_condition, start.x),
        points.len() > 0,
    ensures
        points.len() <= INFINITY_BITS - start.x.rank(),
        match end_condition.max_x {
            Some(bound) => bound.is_nan() || points.len() <= bound.rank() - start.x.rank() + 1,
            None => true,
        },
{
    let last = points.len() - 1;
    lemma_abscissae_climb(
        derivative_y,
        sum,
        product,
        step_size,
        end_condition,
        start,
        points,
        last,
    );
    assert(end_condition.admits(points[last]));
}

/// Two runs from one start agree on every index that both have, where the
/// derivative, the sum and the product each return one value for given
/// arguments.
pub proof fn lemma_runs_agree<D, A, M>(
    derivative_y: D,
    sum: A,
    product: M,
    step_size: Scalar,
    end_condition: EndCondition,
    start: Point,
    first: Seq<Point>,
    second: Seq<Point>,
    i: int,
) where
    D: Fn(Scalar, Scalar) -> Scalar,
    A: Fn(Scalar, Scalar) -> Scalar,
    M: Fn(Scalar, Scalar) -> Scalar,

    requires
        single_valued(derivative_y),
        single_valued(sum),
        single_valued(product),
        is_run(derivative_y, sum, product, step_size, end_condition, start, first),
        is_run(derivative_y, sum, product, step_size, end_condition, start, second),
        0 <= i < first.len(),
        i < second.len(),
    ensures
        first[i] == second[i],
    decreases i,
{
    if i > 0 {
        lemma_runs_agree(
            derivative_y,
            sum,
            product,
            step_size,
            end_condition,
            start,
            first,
            second,
            i - 1,
        );
        assert(steps_to(derivative_y, sum, product, step_size, first[i - 1], first[i]));
        assert(steps_to(derivative_y, sum, product, step_size, second[i - 1], second[i]));
        lemma_step_unique(derivative_y, sum, product, step_size, first[i - 1], first[i], second[i]);
    }
}

/// One Euler step from a point leads to one point, where the derivative, the
/// sum and the product each return one value for given arguments.
pub proof fn lemma_step_unique<D, A, M>(
    derivative_y: D,
    sum: A,
    product: M,
    step_size: Scalar,
    p: Point,
    q: Point,
    r: Point,
) where
    D: Fn(Scalar, Scalar) -> Scalar,
    A: Fn(Scalar, Scalar) -> Scalar,
    M: Fn(Scalar, Scalar) -> Scalar,

    requires
        single_valued(derivative_y),
        single_valued(sum),
        single_valued(product),
        steps_to(derivative_y, sum, product, step_size, p, q),
        steps_to(derivative_y, sum, product, step_size, p, r),
    ensures
        q == r,
{
}

/// Integration is a function of its inputs: two trajectories from one start,
/// under one stopping rule and with one step size, are the same sequence,
/// where the derivative, the sum and the product each return one value for
/// given arguments.
pub proof fn lemma_dataset_unique<D, A, M>(
    derivative_y: D,
    sum: A,
    product: M,
    step_size: Scalar,
    end_condition: EndCondition,
    start: Point,
    first: Seq<Point>,
    second: Seq<Point>,
) where
    D: Fn(Scalar, Scalar) -> Scalar,
    A: Fn(Scalar, Scalar) -> Scalar,
    M: Fn(Scalar, Scalar) -> Scalar,

    requires
        single_valued(derivative_y),
        single_valued(sum),
        single_valued(product),
        is_dataset(derivative_y, sum, product, step_size, end_condition, start, first),
        is_dataset(derivative_y, sum, product, step_size, end_condition, start, second),
    ensures
        first == second,
{
    lemma_run_within_dataset(
        derivative_y,
        sum,
        product,
        step_size,
        end_condition,
        start,
        first,
        second,
    );
    lemma_run_within_dataset(
        derivative_y,
        sum,
        product,
        step_size,
        end_condition,
        start,
        second,
        first,
    );
    assert forall|i: int| 0 <= i < first.len() implies first[i] == second[i] by {
        lemma_runs_agree(
            derivative_y,
            sum,
            product,
            step_size,
            end_condition,
            start,
            first,
            second,
            i,
        );
    }
    assert(first =~= second);
}

/// No run from a start is longer than the trajectory from that start, where
/// the derivative, the sum and the product each return one value for given
/// arguments.
pub proof fn lemma_run_within_dataset<D, A, M>(
    derivative_y: D,
    sum: A,
    product: M,
    step_size: Scalar,
    end_condition: EndCondition,
    start: Point,
    dataset: Seq<Point>,
    run: Seq<Point>,
) where
    D: Fn(Scalar, Scalar) -> Scalar,
    A: Fn(Scalar, Scalar) -> Scalar,
    M: Fn(Scalar, Scalar) -> Scalar,

    requires
        single_valued(derivative_y),
        single_valued(sum),
        single_valued(product),
        is_dataset(derivative_y, sum, product, step_size, end_condition, start, dataset),
        is_run(derivative_y, sum, product, step_size, end_condition, start, run),
    ensures
        run.len() <= dataset.len(),
{
    if dataset.len() < run.len() {
        let n = dataset.len() as int;
        let next = choose|next: Point|
            #[trigger] comes_next(derivative_y, sum, product, step_size, start, dataset, next)
                && !end_condition.admits(next);
        assert(end_condition.admits(run[n]));
        if n == 0 {
            assert(next == run[0]);
        } else {
            lemma_runs_agree(
                derivative_y,
                sum,
                product,
                step_size,
                end_condition,
                start,
                dataset,
                run,
                n - 1,
            );
            assert(steps_to(derivative_y, sum, product, step_size, run[n - 1], run[n]));
            lemma_step_unique(derivative_y, sum, product, step_size, run[n - 1], run[n], next);
        }
    }
}

} // verus!
