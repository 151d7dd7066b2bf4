use vstd::prelude::*;

use crate::algorithms::nsga2::crowding::{is_sort_order, key_before, sort_order};
use crate::problem::error::OError;
use crate::text::{decimal, decimal_string};

verus! {

/// The data for [`NSGA2Survival::Epsilon`]: the epsilon parameter. (The reference point
/// coordinates and objective weights of this approach are real numbers, which this library
/// does not hold.)
#[derive(Clone, Copy, Debug)]
pub struct EpsilonData {
    /// The epsilon parameter.
    pub epsilon: u64,
}

/// Enum to select the survival operator in NSGA2.
///
/// Each type selects the survivors from the last front. The last given front is obtained
/// after applying the fast non-dominated sorting. This front is usually the one that
/// cannot be entirely chosen to maintain the population size of the next generation
/// (i.e. `last_front.len() + population.len() > number_of_individuals`).
#[derive(Clone, Copy, Debug)]
pub enum NSGA2Survival {
    /// Default survival operator implemented in the NSGA2 paper. This selects individuals
    /// with the largest crowding distance first to prevent crowding.
    LargestCrowdingDistanceFirst,
    /// This is the approach used in R-NSGA2 which relies on reference points and simply
    /// alters the survival approach with respect to NSGA2. It is not implemented.
    Epsilon(EpsilonData),
}

/// Whether `selected` lists the `count` individuals of the front that come last in the stable
/// ascending sort by key, from the last one backwards: the individuals with the largest
/// crowding distance first, and among equal distances the later individual first.
pub open spec fn is_survivor_selection(keys: Seq<i64>, selected: Seq<usize>, count: int) -> bool {
    &&& selected.len() == count
    &&& forall|a: int| 0 <= a < selected.len() ==> (#[trigger] selected[a]) < keys.len()
    &&& forall|a: int, b: int|
        0 <= a < b < selected.len() ==> key_before(keys, #[trigger] selected[b] as int, #[trigger] selected[a] as int)
    &&& forall|x: usize|
        x < keys.len() && !(#[trigger] selected.contains(x)) ==> forall|a: int|
            0 <= a < selected.len() ==> key_before(keys, x as int, #[trigger] selected[a] as int)
}

/// The message of the error that reports a wrong number of survivors.
pub open spec fn survivor_count_message(found: nat, expected: nat) -> Seq<char> {
    "The survival algorithm returned a too little or many individuals ("@ + decimal(found)
        + "). Expected "@ + decimal(expected) + "."@
}

impl NSGA2Survival {
    /// This function receives the last front and select the individuals to keep to
    /// complete the population.
    ///
    /// # Arguments
    ///
    /// * `crowding_keys`: for each individual of the last front obtained after applying the
    ///   fast non-dominated sorting, a key that orders its crowding distance (a larger key for a
    ///   larger distance).
    /// * `new_population_length`: The current number of individuals in the new population.
    /// * `number_of_individuals`: The number of individuals to reach at the next generation.
    ///
    /// returns: `Vec<usize>`. The survivors, as indices into the last front.
    pub fn select_survivors(
        &self,
        crowding_keys: &Vec<i64>,
        new_population_length: usize,
        number_of_individuals: usize,
    ) -> (r: Result<Vec<usize>, OError>)
        requires
            self is LargestCrowdingDistanceFirst,
            new_population_length <= number_of_individuals,
        ensures
            r is Err <==> crowding_keys.len() < number_of_individuals - new_population_length,
            r matches Ok(v) ==> is_survivor_selection(
                crowding_keys@,
                v@,
                number_of_individuals - new_population_length,
            ),
            r matches Err(e) ==> e matches OError::AlgorithmRun(operator, message) && operator@
                == "NSGA2Survival"@ && message@ == survivor_count_message(
                crowding_keys.len() as nat,
                (number_of_individuals - new_population_length) as nat,
            ),
    {
        let expected = number_of_individuals - new_population_length;
        let n = crowding_keys.len();
        if n < expected {
            let mut message = String::from_str(
                "The survival algorithm returned a too little or many individuals (",
            );
            message.append(decimal_string(n as u64).as_str());
            message.append("). Expected ");
            message.append(decimal_string(expected as u64).as_str());
            message.append(".");
            return Err(OError::AlgorithmRun(String::from_str("NSGA2Survival"), message));
        }
        // sort by ascending distance, then take from the largest distance down
        let order = sort_order(crowding_keys);
        let mut selected: Vec<usize> = Vec::new();
        for j in 0..expected
            invariant
                expected <= n,
                n == crowding_keys.len(),
                is_sort_order(crowding_keys@, order@),
                selected.len() == j,
                forall|a: int| 0 <= a < j ==> #[trigger] selected@[a] == order@[n - 1 - a],
        {
            selected.push(order[n - 1 - j]);
        }
        proof {
            let keys = crowding_keys@;
            let sel = selected@;
            assert forall|a: int, b: int| 0 <= a < b < sel.len() implies key_before(keys, #[trigger] sel[b] as int, #[trigger] sel[a] as int) by {
                assert(sel[a] == order@[n - 1 - a] && sel[b] == order@[n - 1 - b]);
            }
            assert forall|x: usize| x < keys.len() && !(#[trigger] sel.contains(x)) implies forall|a: int|
                0 <= a < sel.len() ==> key_before(keys, x as int, #[trigger] sel[a] as int) by {
                assert(order@.contains(x));
                let m = choose|m: int| 0 <= m < order@.len() && order@[m] == x;
                if m >= n - expected {
                    assert(sel[n - 1 - m] == x);
                }
                assert forall|a: int| 0 <= a < sel.len() implies key_before(keys, x as int, #[trigger] sel[a] as int) by {
                    assert(sel[a] == order@[n - 1 - a]);
                }
            }
        }
        Ok(selected)
    }
}

} // verus!
