use vstd::prelude::*;

use crate::problem::error::OError;

verus! {

/// The data key where the crowding distance is stored for each individual.
pub const CROWDING_DIST_KEY: &'static str = "crowding_distance";

/// Check the population size that NSGA2 is initialised with: it must have at least 3
/// individuals, and be a multiple of 2 so that the number of offsprings generated (two at a
/// time) matches it.
///
/// returns: `Result<(), OError>`
pub fn check_number_of_individuals(number_of_individuals: usize) -> (r: Result<(), OError>)
    ensures
        r is Ok <==> number_of_individuals >= 3 && number_of_individuals % 2 == 0,
        number_of_individuals < 3 ==> (r matches Err(OError::AlgorithmInit(name, reason))
            && name@ == "NSGA2"@ && reason@
            == "The population size must have at least 3 individuals"@),
        number_of_individuals >= 3 && number_of_individuals % 2 != 0 ==> (r matches Err(
            OError::AlgorithmInit(name, reason),
        ) && name@ == "NSGA2"@ && reason@ == "The population size must be a multiple of 2"@),
{
    if number_of_individuals < 3 {
        return Err(
            OError::AlgorithmInit(
                String::from_str("NSGA2"),
                String::from_str("The population size must have at least 3 individuals"),
            ),
        );
    }
    if number_of_individuals % 2 != 0 {
        return Err(
            OError::AlgorithmInit(
                String::from_str("NSGA2"),
                String::from_str("The population size must be a multiple of 2"),
            ),
        );
    }
    Ok(())
}

/// The number of individuals in the first `k` fronts.
pub open spec fn total_size(sizes: Seq<usize>, k: int) -> int
    decreases k,
{
    if k <= 0 {
        0
    } else {
        total_size(sizes, k - 1) + sizes[k - 1]
    }
}

/// Which ranked fronts form the next population.
#[derive(Clone, Copy, Debug, PartialEq, Eq, Structural)]
pub struct FrontSelection {
    /// The number of leading fronts that are added whole.
    pub complete_fronts: usize,
    /// The front that does not fit whole, whose survivors complete the population; `None` when
    /// the complete fronts fill the population or no front is left.
    pub last_front: Option<usize>,
}

/// Whether `selection` keeps the leading fronts while they fit in `n` individuals, and names the
/// first front that does not fit, unless the population is already full.
pub open spec fn is_front_selection(sizes: Seq<usize>, n: int, selection: FrontSelection) -> bool {
    let k = selection.complete_fronts as int;
    &&& k <= sizes.len()
    &&& total_size(sizes, k) <= n
    &&& k < sizes.len() ==> total_size(sizes, k + 1) > n
    &&& selection.last_front == if k < sizes.len() && total_size(sizes, k) < n {
        Some(k as usize)
    } else {
        None::<usize>
    }
}

/// Select the fronts that form the next population, given the size of each ranked
/// non-dominated front. Fronts are added whole while the population does not exceed
/// `number_of_individuals`; when the next front does not fit, it is the last front, from which
/// the survival operator picks the individuals that complete the population, unless the
/// population is already full.
///
/// This implements the algorithm at the bottom of page 186 in Deb et al. (2002).
pub fn select_fronts(front_sizes: &Vec<usize>, number_of_individuals: usize) -> (r: FrontSelection)
    ensures
        is_front_selection(front_sizes@, number_of_individuals as int, r),
{
    let n = number_of_individuals;
    let mut population: usize = 0;
    let mut i: usize = 0;
    while i < front_sizes.len()
        invariant
            n == number_of_individuals,
            i <= front_sizes.len(),
            population == total_size(front_sizes@, i as int),
            population <= n,
        decreases front_sizes.len() - i,
    {
        let size = front_sizes[i];
        assert(total_size(front_sizes@, i as int + 1) == population + size);
        if size <= n - population {
            population = population + size;
            i = i + 1;
        } else if population == n {
            return FrontSelection { complete_fronts: i, last_front: None };
        } else {
            return FrontSelection { complete_fronts: i, last_front: Some(i) };
        }
    }
    FrontSelection { complete_fronts: i, last_front: None }
}

/// Adding fronts never shrinks the population.
proof fn lemma_total_size_monotonic(sizes: Seq<usize>, j: int, k: int)
    requires
        0 <= j <= k <= sizes.len(),
    ensures
        total_size(sizes, j) <= total_size(sizes, k),
    decreases k - j,
{
    if j < k {
        lemma_total_size_monotonic(sizes, j, k - 1);
    }
}

/// The next population of NSGA2 has `min(total, n)` individuals, where `total` is the number of
/// individuals in all ranked fronts: the complete fronts, plus, when there is a last front,
/// `n` minus their size survivors from it. The last front holds more individuals than the
/// survivors it must give, and gives at least one.
pub proof fn lemma_next_population_size(sizes: Seq<usize>, n: usize, selection: FrontSelection)
    requires
        is_front_selection(sizes, n as int, selection),
    ensures
        ({
            let kept = total_size(sizes, selection.complete_fronts as int);
            let survivors = if selection.last_front is Some {
                n - kept
            } else {
                0
            };
            let total = total_size(sizes, sizes.len() as int);
            &&& kept + survivors == if total < n {
                total
            } else {
                n as int
            }
            &&& selection.last_front matches Some(l) ==> 0 < n - kept < sizes[l as int]
        }),
{
    let k = selection.complete_fronts as int;
    if k < sizes.len() {
        lemma_total_size_monotonic(sizes, k + 1, sizes.len() as int);
    }
}

} // verus!
