pub mod nsga2;
pub mod stopping_condition;

pub use stopping_condition::{PyStoppingConditionMap, PyStoppingConditionValue, StoppingCondition};
