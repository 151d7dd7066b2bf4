pub mod crowding;
pub mod population;
pub mod survival;

pub use population::{check_number_of_individuals, select_fronts, FrontSelection, CROWDING_DIST_KEY};
pub use survival::{EpsilonData, NSGA2Survival};
