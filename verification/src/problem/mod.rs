pub mod error;
pub mod objective;
mod random;
pub mod variable;

pub use error::OError;
pub use objective::{Objective, ObjectiveDirection};
pub use variable::{BoundedNumber, BoundedNumberTrait, Boolean, Choice, PyVariableType, Variable, VariableType, VariableValue};
