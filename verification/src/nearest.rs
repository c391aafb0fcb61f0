//! Search for the point of a sequence that lies nearest to a query position.
use vstd::prelude::*;
use crate::point::Point2D;

verus! {

/// `i` is the index of the nearest point: no point of `points` is closer to
/// `query` than `points[i]`, and every point before it is strictly farther.
pub open spec fn is_nearest_index(points: Seq<Point2D>, query: Point2D, i: int) -> bool {
    &&& 0 <= i < points.len()
    &&& forall|j: int|
        0 <= j < points.len() ==> points[i].dist_sq(query) <= #[trigger] points[j].dist_sq(query)
    &&& forall|j: int| 0 <= j < i ==> points[i].dist_sq(query) < #[trigger] points[j].dist_sq(query)
}

/// The index that `is_nearest_index` singles out; meaningful for a non-empty
/// sequence.
pub open spec fn nearest_index(points: Seq<Point2D>, query: Point2D) -> int {
    choose|i: int| is_nearest_index(points, query, i)
}

/// The nearest point of `points` to `query`: the first among those at the
/// least distance, or `None` when there is no point at all.
pub open spec fn nearest_point(points: Seq<Point2D>, query: Point2D) -> Option<Point2D> {
    if points.len() == 0 {
        None
    } else {
        Some(points[nearest_index(points, query)])
    }
}

/// At most one index is the nearest.
pub proof fn lemma_nearest_index_unique(points: Seq<Point2D>, query: Point2D, i: int, j: int)
    requires
        is_nearest_index(points, query, i),
        is_nearest_index(points, query, j),
    ensures
        i == j,
{
    if i < j {
        assert(points[j].dist_sq(query) < points[i].dist_sq(query));
        assert(points[i].dist_sq(query) <= points[j].dist_sq(query));
    } else if j < i {
        assert(points[i].dist_sq(query) < points[j].dist_sq(query));
        assert(points[j].dist_sq(query) <= points[i].dist_sq(query));
    }
}

/// Every non-empty sequence has a nearest index, and `nearest_index` is it.
pub proof fn lemma_nearest_index_exists(points: Seq<Point2D>, query: Point2D)
    requires
        points.len() > 0,
    ensures
        is_nearest_index(points, query, nearest_index(points, query)),
    decreases points.len(),
{
    if points.len() == 1 {
        assert(is_nearest_index(points, query, 0));
    } else {
        let front = points.drop_last();
        lemma_nearest_index_exists(front, query);
        let b = nearest_index(front, query);
        let last = points.len() - 1;
        assert forall|j: int| 0 <= j < front.len() implies front[j] == points[j] by {}
        if points[last].dist_sq(query) < points[b].dist_sq(query) {
            assert forall|j: int| 0 <= j < points.len() implies points[last].dist_sq(query)
                <= #[trigger] points[j].dist_sq(query) by {
                if j < last {
                    assert(front[b].dist_sq(query) <= front[j].dist_sq(query));
                }
            }
            assert forall|j: int| 0 <= j < last implies points[last].dist_sq(query)
                < #[trigger] points[j].dist_sq(query) by {
                assert(front[b].dist_sq(query) <= front[j].dist_sq(query));
            }
            assert(is_nearest_index(points, query, last));
        } else {
            assert forall|j: int| 0 <= j < points.len() implies points[b].dist_sq(query)
                <= #[trigger] points[j].dist_sq(query) by {
                if j < last {
                    assert(front[b].dist_sq(query) <= front[j].dist_sq(query));
                }
            }
            assert forall|j: int| 0 <= j < b implies points[b].dist_sq(query)
                < #[trigger] points[j].dist_sq(query) by {
                assert(front[b].dist_sq(query) < front[j].dist_sq(query));
            }
            assert(is_nearest_index(points, query, b));
        }
    }
}

/// Of two points at the same distance from the query, the later one is not
/// the nearest: a tie goes to the point that comes first.
pub proof fn lemma_tie_goes_to_earlier(points: Seq<Point2D>, query: Point2D, i: int, j: int)
    requires
        0 <= i < j < points.len(),
        points[i].dist_sq(query) == points[j].dist_sq(query),
    ensures
        nearest_index(points, query) != j,
{
    lemma_nearest_index_exists(points, query);
    if nearest_index(points, query) == j {
        assert(points[j].dist_sq(query) < points[i].dist_sq(query));
    }
}

/// The nearest point is the first of those at the least distance: no index
/// at which the least distance is reached comes before the nearest.
pub proof fn lemma_nearest_is_first_least(points: Seq<Point2D>, query: Point2D, j: int)
    requires
        0 <= j < points.len(),
        forall|k: int|
            0 <= k < points.len() ==> points[j].dist_sq(query) <= #[trigger] points[k].dist_sq(
                query,
            ),
    ensures
        nearest_index(points, query) <= j,
        points[nearest_index(points, query)].dist_sq(query) == points[j].dist_sq(query),
{
    lemma_nearest_index_exists(points, query);
    let n = nearest_index(points, query);
    assert(points[n].dist_sq(query) <= points[j].dist_sq(query));
    assert(points[j].dist_sq(query) <= points[n].dist_sq(query));
    if j < n {
        assert(points[n].dist_sq(query) < points[j].dist_sq(query));
    }
}

/// Returns the point of `points` nearest to `query`, by squared Euclidean
/// distance. Among several at the least distance the one that comes first in
/// `points` is returned. An empty sequence has no nearest point.
pub fn find_nearest(points: &Vec<Point2D>, query: &Point2D) -> (nearest: Option<Point2D>)
    ensures
        nearest == nearest_point(points@, *query),
        nearest is None <==> points@.len() == 0,
        nearest is Some ==> is_nearest_index(points@, *query, nearest_index(points@, *query)),
{
    if points.len() == 0 {
        return None;
    }
    let mut best: usize = 0;
    let mut best_dist: u128 = points[0].distance_squared(query);
    let mut k: usize = 1;
    while k < points.len()
        invariant
            1 <= k <= points.len(),
            best < k,
            best_dist == points@[best as int].dist_sq(*query),
            forall|j: int|
                0 <= j < k ==> best_dist <= #[trigger] points@[j].dist_sq(*query),
            forall|j: int|
                0 <= j < best ==> best_dist < #[trigger] points@[j].dist_sq(*query),
        decreases points.len() - k,
    {
        let d: u128 = points[k].distance_squared(query);
        if d < best_dist {
            best = k;
            best_dist = d;
        }
        k += 1;
    }
    proof {
        assert(is_nearest_index(points@, *query, best as int));
        lemma_nearest_index_unique(points@, *query, best as int, nearest_index(points@, *query));
    }
    Some(points[best])
}

} // verus!
