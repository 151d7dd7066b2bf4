use nsga_rs::algorithms::nsga2::crowding::{
    distance_data_key, objective_neighbours, rank_crowding, rank_data_key, sort_order, sort_ranks, ObjectiveNeighbours,
};
use nsga_rs::algorithms::nsga2::crowding::ObjectiveNeighbours::{Between, Boundary};
use nsga_rs::algorithms::nsga2::{
    check_number_of_individuals, select_fronts, EpsilonData, FrontSelection, NSGA2Survival,
    CROWDING_DIST_KEY,
};
use nsga_rs::problem::OError;

#[test]
fn crowding_key_name() {
    assert_eq!(CROWDING_DIST_KEY, "crowding_distance");
}

#[test]
fn population_size_checks() {
    assert_eq!(
        check_number_of_individuals(2),
        Err(OError::AlgorithmInit(
            "NSGA2".to_string(),
            "The population size must have at least 3 individuals".to_string()
        ))
    );
    assert_eq!(
        check_number_of_individuals(0),
        Err(OError::AlgorithmInit(
            "NSGA2".to_string(),
            "The population size must have at least 3 individuals".to_string()
        ))
    );
    assert_eq!(
        check_number_of_individuals(7),
        Err(OError::AlgorithmInit(
            "NSGA2".to_string(),
            "The population size must be a multiple of 2".to_string()
        ))
    );
    assert_eq!(check_number_of_individuals(4), Ok(()));
    assert_eq!(check_number_of_individuals(30), Ok(()));
}

#[test]
fn stable_sort_order() {
    assert_eq!(sort_order(&vec![]), Vec::<usize>::new());
    assert_eq!(sort_order(&vec![30, 10, 20]), vec![1, 2, 0]);
    // equal keys keep their order
    assert_eq!(sort_order(&vec![5, 1, 5, 1, 0]), vec![4, 1, 3, 0, 2]);
    assert_eq!(sort_order(&vec![i64::MAX, i64::MIN, 0]), vec![1, 2, 0]);
}

#[test]
fn ranks_from_sort_order() {
    assert_eq!(sort_ranks(&vec![30, 10, 20]), vec![2, 0, 1]);
    assert_eq!(sort_ranks(&vec![5, 1, 5, 1, 0]), vec![3, 1, 4, 2, 0]);
}

#[test]
fn reference_point_rank_crowding() {
    // two reference points, four individuals
    let keys = vec![vec![4, 3, 2, 1], vec![1, 2, 3, 4]];
    let r = rank_crowding(&keys, 4);
    assert_eq!(r.ranks, vec![vec![3, 2, 1, 0], vec![0, 1, 2, 3]]);
    assert_eq!(r.min_ranks, vec![0, 1, 1, 0]);
    // no reference point: the smallest rank stays at its start value
    let r = rank_crowding(&vec![], 3);
    assert!(r.ranks.is_empty());
    assert_eq!(r.min_ranks, vec![usize::MAX; 3]);
}

#[test]
fn survivors_with_largest_crowding_first() {
    let survival = NSGA2Survival::LargestCrowdingDistanceFirst;
    // keys order the crowding distances; the largest distances survive first
    let keys = vec![10, 50, 20, 50, 5];
    assert_eq!(survival.select_survivors(&keys, 7, 10).unwrap(), vec![3, 1, 2]);
    assert_eq!(survival.select_survivors(&keys, 10, 10).unwrap(), Vec::<usize>::new());
    assert_eq!(
        survival.select_survivors(&keys, 5, 10).unwrap(),
        vec![3, 1, 2, 0, 4]
    );
}

#[test]
fn survivors_error_when_front_is_too_small() {
    let survival = NSGA2Survival::LargestCrowdingDistanceFirst;
    let keys = vec![1, 2];
    assert_eq!(
        survival.select_survivors(&keys, 7, 10),
        Err(OError::AlgorithmRun(
            "NSGA2Survival".to_string(),
            "The survival algorithm returned a too little or many individuals (2). Expected 3."
                .to_string()
        ))
    );
    let _ = NSGA2Survival::Epsilon(EpsilonData { epsilon: 3 });
}

#[test]
fn front_selection() {
    // fronts of 3, 4 and 5 individuals, population of 10: the first two fit, the third is
    // the last front
    assert_eq!(
        select_fronts(&vec![3, 4, 5], 10),
        FrontSelection { complete_fronts: 2, last_front: Some(2) }
    );
    // fronts that fill the population exactly
    assert_eq!(
        select_fronts(&vec![4, 6, 5], 10),
        FrontSelection { complete_fronts: 2, last_front: None }
    );
    // all fronts fit
    assert_eq!(
        select_fronts(&vec![1, 2], 10),
        FrontSelection { complete_fronts: 2, last_front: None }
    );
    // the first front does not fit
    assert_eq!(
        select_fronts(&vec![12, 1], 10),
        FrontSelection { complete_fronts: 0, last_front: Some(0) }
    );
    assert_eq!(
        select_fronts(&vec![], 10),
        FrontSelection { complete_fronts: 0, last_front: None }
    );
}

#[test]
fn next_population_has_target_size() {
    let sizes = vec![3, 4, 5];
    let n = 10;
    let selection = select_fronts(&sizes, n);
    let kept: usize = sizes[..selection.complete_fronts].iter().sum();
    let last = selection.last_front.unwrap();
    let keys: Vec<i64> = (0..sizes[last] as i64).collect();
    let survivors = NSGA2Survival::LargestCrowdingDistanceFirst
        .select_survivors(&keys, kept, n)
        .unwrap();
    assert_eq!(kept + survivors.len(), n);
    assert_eq!(survivors, vec![4, 3, 2]);
}

#[test]
fn neighbours_along_an_objective() {
    assert_eq!(
        objective_neighbours(&vec![0, 100, 200, 400]),
        vec![Boundary, Between(0, 2), Between(1, 3), Boundary]
    );
    // the second objective sorts the individuals the other way round
    assert_eq!(
        objective_neighbours(&vec![0, -100, -200, -400]),
        vec![Boundary, Between(2, 0), Between(3, 1), Boundary]
    );
    assert_eq!(objective_neighbours(&vec![7, 3]), vec![Boundary, Boundary]);
    assert_eq!(objective_neighbours(&vec![]), Vec::<ObjectiveNeighbours>::new());
    // equal values keep the order of the individuals
    assert_eq!(
        objective_neighbours(&vec![1, 1, 1]),
        vec![Boundary, Between(0, 2), Boundary]
    );
}

#[test]
fn reference_point_data_keys() {
    assert_eq!(distance_data_key(0), "distance_from_ref_point_0");
    assert_eq!(rank_data_key(12), "rank_for_ref_point_12");
}
