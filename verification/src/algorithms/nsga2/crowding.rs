use vstd::prelude::*;

use crate::text::{decimal, decimal_string};

verus! {

/// Whether individual `a` comes before individual `b` when the individuals are sorted by
/// ascending key, individuals with equal keys keeping their order.
pub open spec fn key_before(keys: Seq<i64>, a: int, b: int) -> bool {
    keys[a] < keys[b] || (keys[a] == keys[b] && a < b)
}

/// Whether `order` lists the indices of `keys` sorted by ascending key, a stable sort:
/// every index once, each before the ones that follow it.
pub open spec fn is_sort_order(keys: Seq<i64>, order: Seq<usize>) -> bool {
    &&& order.len() == keys.len()
    &&& forall|r: int| 0 <= r < order.len() ==> (#[trigger] order[r]) < keys.len()
    &&& forall|r: int, s: int|
        0 <= r < s < order.len() ==> key_before(keys, #[trigger] order[r] as int, #[trigger] order[s] as int)
    &&& forall|x: usize| x < keys.len() ==> #[trigger] order.contains(x)
}

/// The indices of `keys` sorted by ascending key; indices with equal keys keep their order.
/// Keys stand for the numbers being sorted: a smaller key for a smaller number.
pub fn sort_order(keys: &Vec<i64>) -> (order: Vec<usize>)
    ensures
        is_sort_order(keys@, order@),
{
    let n = keys.len();
    let mut order: Vec<usize> = Vec::new();
    for i in 0..n
        invariant
            n == keys.len(),
            order.len() == i,
            forall|r: int| 0 <= r < order.len() ==> (#[trigger] order@[r]) < i,
            forall|r: int, s: int|
                0 <= r < s < order.len() ==> key_before(keys@, #[trigger] order@[r] as int, #[trigger] order@[s] as int),
            forall|x: usize| x < i ==> #[trigger] order@.contains(x),
    {
        let mut p: usize = 0;
        while p < order.len() && keys[order[p]] <= keys[i]
            invariant
                n == keys.len(),
                i < n,
                p <= order.len(),
                forall|r: int| 0 <= r < order.len() ==> (#[trigger] order@[r]) < i,
                forall|q: int| 0 <= q < p ==> keys@[#[trigger] order@[q] as int] <= keys@[i as int],
            decreases order.len() - p,
        {
            p = p + 1;
        }
        let ghost old_order = order@;
        order.insert(p, i);
        assert(order@ == old_order.insert(p as int, i));
        assert forall|r: int, s: int|
            0 <= r < s < order.len() implies key_before(keys@, #[trigger] order@[r] as int, #[trigger] order@[s] as int) by {
            if s < p {
                assert(order@[r] == old_order[r] && order@[s] == old_order[s]);
            } else if s == p {
                assert(order@[r] == old_order[r]);
            } else if r == p {
                assert(order@[s] == old_order[s - 1]);
                assert(key_before(keys@, i as int, old_order[p as int] as int));
                if s - 1 > p {
                    assert(key_before(keys@, old_order[p as int] as int, old_order[s - 1] as int));
                }
            } else if r < p {
                assert(order@[r] == old_order[r] && order@[s] == old_order[s - 1]);
            } else {
                assert(order@[r] == old_order[r - 1] && order@[s] == old_order[s - 1]);
            }
        }
        assert forall|x: usize| x < i + 1 implies #[trigger] order@.contains(x) by {
            if x < i {
                assert(old_order.contains(x));
                let k = choose|k: int| 0 <= k < old_order.len() && old_order[k] == x;
                if k < p {
                    assert(order@[k] == x);
                } else {
                    assert(order@[k + 1] == x);
                }
            } else {
                assert(order@[p as int] == x);
            }
        }
    }
    order
}


/// The rank of individual `x` when the individuals are sorted by ascending key: the number of
/// individuals that come before it.
pub open spec fn closer_count(keys: Seq<i64>, x: int) -> nat {
    Set::new(|j: usize| (j as int) < keys.len() && key_before(keys, j as int, x)).len()
}

/// In a sort order, the individual at position `r` has rank `r`.
pub proof fn lemma_position_is_rank(keys: Seq<i64>, order: Seq<usize>, r: int)
    requires
        is_sort_order(keys, order),
        0 <= r < order.len(),
    ensures
        closer_count(keys, order[r] as int) == r,
{
    let x = order[r] as int;
    let before = Set::new(|j: usize| (j as int) < keys.len() && key_before(keys, j as int, x));
    let prefix = order.take(r);
    assert(before =~= prefix.to_set()) by {
        assert forall|j: usize| before.contains(j) implies prefix.to_set().contains(j) by {
            assert(order.contains(j));
            let m = choose|m: int| 0 <= m < order.len() && order[m] == j;
            if m > r {
                assert(key_before(keys, order[r] as int, order[m] as int));
            }
            assert(m < r);
            assert(prefix[m] == j);
        }
        assert forall|j: usize| prefix.to_set().contains(j) implies before.contains(j) by {
            let m = choose|m: int| 0 <= m < prefix.len() && prefix[m] == j;
            assert(order[m] == j);
            assert(key_before(keys, order[m] as int, order[r] as int));
        }
    }
    assert(prefix.no_duplicates()) by {
        assert forall|a: int, b: int| 0 <= a < prefix.len() && 0 <= b < prefix.len() && a != b implies prefix[a] != prefix[b] by {
            if a < b {
                assert(key_before(keys, order[a] as int, order[b] as int));
            } else {
                assert(key_before(keys, order[b] as int, order[a] as int));
            }
        }
    }
    prefix.unique_seq_to_set();
}

/// The rank of each individual when the individuals are sorted by ascending key (the
/// position of each individual in `sort_order(keys)`).
pub fn sort_ranks(keys: &Vec<i64>) -> (ranks: Vec<usize>)
    ensures
        ranks.len() == keys.len(),
        forall|i: int| 0 <= i < keys.len() ==> #[trigger] ranks@[i] == closer_count(keys@, i),
{
    let n = keys.len();
    let order = sort_order(keys);
    let mut ranks: Vec<usize> = Vec::new();
    for i in 0..n
        invariant
            n == keys.len(),
            ranks.len() == i,
    {
        ranks.push(0);
    }
    for r in 0..n
        invariant
            n == keys.len(),
            ranks.len() == n,
            is_sort_order(keys@, order@),
            forall|q: int| 0 <= q < r ==> #[trigger] ranks@[order@[q] as int] == q,
    {
        let ghost before = ranks@;
        ranks.set(order[r], r);
        assert forall|q: int| 0 <= q < r + 1 implies #[trigger] ranks@[order@[q] as int] == q by {
            if q < r {
                assert(key_before(keys@, order@[q] as int, order@[r as int] as int));
                assert(ranks@[order@[q] as int] == before[order@[q] as int]);
            }
        }
    }
    assert forall|i: int| 0 <= i < n implies #[trigger] ranks@[i] == closer_count(keys@, i) by {
        assert(order@.contains(i as usize));
        let r = choose|r: int| 0 <= r < order@.len() && order@[r] == i as usize;
        assert(ranks@[order@[r] as int] == r);
        lemma_position_is_rank(keys@, order@, r);
    }
    ranks
}

/// Where an individual stands when the individuals of a front are sorted by one objective.
#[derive(Clone, Copy, Debug, PartialEq, Eq, Structural)]
pub enum ObjectiveNeighbours {
    /// The individual comes first or last: the crowding distance gives it an infinite distance.
    Boundary,
    /// The individual lies between the two individuals that come just before and just after
    /// it: its distance grows by the gap between their objective values.
    Between(usize, usize),
}

/// Whether `neighbours` gives each individual its place in the sort by `keys`: the first and
/// the last are boundaries, each other one lies between the individual ranked just before it
/// and the one ranked just after it.
pub open spec fn is_neighbours(keys: Seq<i64>, neighbours: Seq<ObjectiveNeighbours>) -> bool {
    let n = keys.len() as int;
    &&& neighbours.len() == n
    &&& forall|i: int|
        0 <= i < n ==> match #[trigger] neighbours[i] {
            ObjectiveNeighbours::Boundary => closer_count(keys, i) == 0 || closer_count(keys, i)
                == n - 1,
            ObjectiveNeighbours::Between(before, after) => {
                &&& 0 < closer_count(keys, i) < n - 1
                &&& before < n && after < n
                &&& closer_count(keys, before as int) == closer_count(keys, i) - 1
                &&& closer_count(keys, after as int) == closer_count(keys, i) + 1
            },
        }
}

/// For one objective of the default crowding distance (Deb et al., 2002, Section III-B), the
/// place of each individual once the front is sorted by that objective, where `keys[i]` orders
/// the objective value of individual `i`.
pub fn objective_neighbours(keys: &Vec<i64>) -> (r: Vec<ObjectiveNeighbours>)
    ensures
        is_neighbours(keys@, r@),
{
    let n = keys.len();
    let order = sort_order(keys);
    let mut neighbours: Vec<ObjectiveNeighbours> = Vec::new();
    for i in 0..n
        invariant
            n == keys.len(),
            neighbours.len() == i,
            forall|j: int| 0 <= j < i ==> #[trigger] neighbours@[j] == ObjectiveNeighbours::Boundary,
    {
        neighbours.push(ObjectiveNeighbours::Boundary);
    }
    if n >= 3 {
        for r in 1..n - 1
            invariant
                n == keys.len(),
                n >= 3,
                neighbours.len() == n,
                is_sort_order(keys@, order@),
                forall|q: int| 1 <= q < r ==> #[trigger] neighbours@[order@[q] as int]
                    == ObjectiveNeighbours::Between(order@[q - 1], order@[q + 1]),
                forall|q: int| (q == 0 || r <= q < n) ==> #[trigger] neighbours@[order@[q] as int]
                    == ObjectiveNeighbours::Boundary,
        {
            let ghost before = neighbours@;
            neighbours.set(order[r], ObjectiveNeighbours::Between(order[r - 1], order[r + 1]));
            assert forall|q: int| 0 <= q < n && q != r implies order@[q] != order@[r as int] by {
                if q < r {
                    assert(key_before(keys@, order@[q] as int, order@[r as int] as int));
                } else {
                    assert(key_before(keys@, order@[r as int] as int, order@[q] as int));
                }
            }
            assert forall|q: int| 1 <= q < r + 1 implies #[trigger] neighbours@[order@[q] as int]
                == ObjectiveNeighbours::Between(order@[q - 1], order@[q + 1]) by {
                if q < r {
                    assert(neighbours@[order@[q] as int] == before[order@[q] as int]);
                }
            }
            assert forall|q: int| (q == 0 || r + 1 <= q < n) implies #[trigger] neighbours@[order@[q] as int]
                == ObjectiveNeighbours::Boundary by {
                assert(neighbours@[order@[q] as int] == before[order@[q] as int]);
            }
        }
    }
    assert forall|i: int| 0 <= i < n implies match #[trigger] neighbours@[i] {
        ObjectiveNeighbours::Boundary => closer_count(keys@, i) == 0 || closer_count(keys@, i)
            == n - 1,
        ObjectiveNeighbours::Between(before, after) => {
            &&& 0 < closer_count(keys@, i) < n - 1
            &&& before < n && after < n
            &&& closer_count(keys@, before as int) == closer_count(keys@, i) - 1
            &&& closer_count(keys@, after as int) == closer_count(keys@, i) + 1
        },
    } by {
        assert(order@.contains(i as usize));
        let r = choose|r: int| 0 <= r < order@.len() && order@[r] == i as usize;
        lemma_position_is_rank(keys@, order@, r);
        if 0 < r < n - 1 {
            lemma_position_is_rank(keys@, order@, r - 1);
            lemma_position_is_rank(keys@, order@, r + 1);
            assert(neighbours@[order@[r] as int] == ObjectiveNeighbours::Between(order@[r - 1], order@[r + 1]));
        } else {
            assert(neighbours@[order@[r] as int] == ObjectiveNeighbours::Boundary);
        }
    }
    neighbours
}

/// The keys of each reference point.
pub open spec fn key_views(keys: Seq<Vec<i64>>) -> Seq<Seq<i64>> {
    keys.map_values(|k: Vec<i64>| k@)
}

/// The smallest rank of individual `i` over the reference points, starting from `usize::MAX`
/// when there is no reference point.
pub open spec fn min_rank(keys: Seq<Seq<i64>>, i: int) -> int
    decreases keys.len(),
{
    if keys.len() == 0 {
        usize::MAX as int
    } else {
        let rest = min_rank(keys.drop_last(), i);
        let rank = closer_count(keys.last(), i) as int;
        if rank < rest {
            rank
        } else {
            rest
        }
    }
}

/// In a front of fewer than 3 individuals every individual is a boundary along every
/// objective, so every crowding distance is infinite.
pub proof fn lemma_small_front_has_only_boundaries(
    keys: Seq<i64>,
    neighbours: Seq<ObjectiveNeighbours>,
)
    requires
        is_neighbours(keys, neighbours),
        keys.len() < 3,
    ensures
        forall|i: int| 0 <= i < keys.len() ==> #[trigger] neighbours[i] == ObjectiveNeighbours::Boundary,
{
    assert forall|i: int| 0 <= i < keys.len() implies #[trigger] neighbours[i] == ObjectiveNeighbours::Boundary by {
        match neighbours[i] {
            ObjectiveNeighbours::Boundary => {},
            ObjectiveNeighbours::Between(_, _) => {
                assert(0 < closer_count(keys, i) < keys.len() - 1);
            },
        }
    }
}

/// The data key under which an individual's distance from reference point `point` is stored.
pub fn distance_data_key(point: usize) -> (r: String)
    ensures
        r@ == "distance_from_ref_point_"@ + decimal(point as nat),
{
    let mut key = String::from_str("distance_from_ref_point_");
    key.append(decimal_string(point as u64).as_str());
    key
}

/// The data key under which an individual's rank for reference point `point` is stored.
pub fn rank_data_key(point: usize) -> (r: String)
    ensures
        r@ == "rank_for_ref_point_"@ + decimal(point as nat),
{
    let mut key = String::from_str("rank_for_ref_point_");
    key.append(decimal_string(point as u64).as_str());
    key
}

/// The ranks that the reference-point crowding distance assigns.
pub struct RankCrowding {
    /// For each reference point, the rank of each individual by distance from the point.
    pub ranks: Vec<Vec<usize>>,
    /// For each individual, its smallest rank over the reference points.
    pub min_ranks: Vec<usize>,
}

/// The ranks behind the crowding distance of R-NSGA2 (Deb and Sundar, 2006, Section IV): for
/// each reference point, the individuals are ranked by ascending distance from it (step 1);
/// the crowding distance of an individual is then its smallest rank over all points (step 2),
/// negated. `distance_keys[p][i]` orders the distance of individual `i` from point `p`, and
/// there are `number_of_individuals` individuals.
pub fn rank_crowding(distance_keys: &Vec<Vec<i64>>, number_of_individuals: usize) -> (r: RankCrowding)
    requires
        forall|p: int| 0 <= p < distance_keys.len() ==> (#[trigger] distance_keys@[p]).len() == number_of_individuals,
    ensures
        r.ranks.len() == distance_keys.len(),
        forall|p: int| #![trigger r.ranks@[p]] 0 <= p < distance_keys.len() ==> r.ranks@[p].len() == number_of_individuals
            && forall|i: int| 0 <= i < number_of_individuals ==> #[trigger] r.ranks@[p]@[i] == closer_count(distance_keys@[p]@, i),
        r.min_ranks.len() == number_of_individuals,
        forall|i: int| 0 <= i < number_of_individuals ==> #[trigger] r.min_ranks@[i] == min_rank(key_views(distance_keys@), i),
{
    let points = distance_keys.len();
    let n = number_of_individuals;
    let mut ranks: Vec<Vec<usize>> = Vec::new();
    for p in 0..points
        invariant
            points == distance_keys.len(),
            forall|q: int| 0 <= q < points ==> (#[trigger] distance_keys@[q]).len() == n,
            ranks.len() == p,
            forall|q: int| #![trigger ranks@[q]] 0 <= q < p ==> ranks@[q].len() == n
                && forall|i: int| 0 <= i < n ==> #[trigger] ranks@[q]@[i] == closer_count(distance_keys@[q]@, i),
    {
        let point_ranks = sort_ranks(&distance_keys[p]);
        ranks.push(point_ranks);
    }
    let mut min_ranks: Vec<usize> = Vec::new();
    for i in 0..n
        invariant
            points == distance_keys.len(),
            ranks.len() == points,
            forall|q: int| #![trigger ranks@[q]] 0 <= q < points ==> ranks@[q].len() == n
                && forall|j: int| 0 <= j < n ==> #[trigger] ranks@[q]@[j] == closer_count(distance_keys@[q]@, j),
            min_ranks.len() == i,
            forall|j: int| 0 <= j < i ==> #[trigger] min_ranks@[j] == min_rank(key_views(distance_keys@), j),
    {
        let mut smallest: usize = usize::MAX;
        for p in 0..points
            invariant
                points == distance_keys.len(),
                ranks.len() == points,
                i < n,
                forall|q: int| #![trigger ranks@[q]] 0 <= q < points ==> ranks@[q].len() == n
                    && forall|j: int| 0 <= j < n ==> #[trigger] ranks@[q]@[j] == closer_count(distance_keys@[q]@, j),
                smallest == min_rank(key_views(distance_keys@).take(p as int), i as int),
        {
            assert(key_views(distance_keys@).take(p + 1).drop_last() =~= key_views(distance_keys@).take(p as int));
            assert(ranks@[p as int]@[i as int] == closer_count(distance_keys@[p as int]@, i as int));
            let rank = ranks[p][i];
            if rank < smallest {
                smallest = rank;
            }
        }
        assert(key_views(distance_keys@).take(points as int) =~= key_views(distance_keys@));
        min_ranks.push(smallest);
    }
    RankCrowding { ranks, min_ranks }
}

} // verus!
