use vstd::prelude::*;

verus! {

/// Whether the objective should be minimised or maximised. Default is minimise.
#[derive(Clone, Copy, Debug, PartialEq, Eq, Structural, PartialOrd)]
pub enum ObjectiveDirection {
    /// Minimise an objective.
    Minimise,
    /// Maximise an objective.
    Maximise,
}

impl Default for ObjectiveDirection {
    fn default() -> (r: ObjectiveDirection)
        ensures
            r == ObjectiveDirection::Minimise,
    {
        ObjectiveDirection::Minimise
    }
}

impl ObjectiveDirection {
    /// The word that describes the direction.
    pub open spec fn spec_text(self) -> Seq<char> {
        match self {
            ObjectiveDirection::Minimise => "minimised"@,
            ObjectiveDirection::Maximise => "maximised"@,
        }
    }

    /// The word that describes the direction: "minimised" or "maximised".
    ///
    /// returns: `String`
    pub fn to_string(&self) -> (r: String)
        ensures
            r@ == self.spec_text(),
    {
        match self {
            ObjectiveDirection::Minimise => String::from_str("minimised"),
            ObjectiveDirection::Maximise => String::from_str("maximised"),
        }
    }

    /// The text that describes the direction.
    pub fn __repr__(&self) -> (r: String)
        ensures
            r@ == "ObjectiveDirection("@ + self.spec_text() + ")"@,
    {
        let mut s = String::from_str("ObjectiveDirection(");
        s.append(self.to_string().as_str());
        s.append(")");
        s
    }

    /// The text that describes the direction.
    pub fn __str__(&self) -> (r: String)
        ensures
            r@ == "ObjectiveDirection("@ + self.spec_text() + ")"@,
    {
        self.__repr__()
    }
}

/// A minimised objective is described as "minimised", a maximised one as "maximised"; an
/// objective reads "Objective '<name>' is <direction>" with the name it was created with.
pub proof fn lemma_objective_descriptions(name: Seq<char>, objective: Objective)
    ensures
        ObjectiveDirection::Minimise.spec_text() == "minimised"@,
        ObjectiveDirection::Maximise.spec_text() == "maximised"@,
        objective.spec_text() == "Objective '"@ + objective.spec_name() + "' is "@ + (
        if objective.spec_direction() == ObjectiveDirection::Minimise {
            "minimised"@
        } else {
            "maximised"@
        }),
{
}

/// Define a problem objective to minimise or maximise.
#[derive(Debug, Clone)]
pub struct Objective {
    /// The objective name.
    name: String,
    /// Whether the objective should be minimised or maximised.
    direction: ObjectiveDirection,
}

impl Objective {
    /// The objective name.
    pub closed spec fn spec_name(self) -> Seq<char> {
        self.name@
    }

    /// Whether the objective is minimised or maximised.
    pub closed spec fn spec_direction(self) -> ObjectiveDirection {
        self.direction
    }

    /// The text that describes the objective.
    pub open spec fn spec_text(self) -> Seq<char> {
        "Objective '"@ + self.spec_name() + "' is "@ + self.spec_direction().spec_text()
    }

    /// Create a new objective.
    ///
    /// # Arguments
    ///
    /// * `name`: The objective name.
    /// * `direction`:  Whether the objective should be minimised or maximised.
    ///
    /// returns: `Objective`
    pub fn new(name: &str, direction: ObjectiveDirection) -> (r: Objective)
        ensures
            r.spec_name() == name@,
            r.spec_direction() == direction,
    {
        Objective { name: String::from_str(name), direction }
    }

    /// Get the objective name.
    ///
    /// return: `String`
    pub fn name(&self) -> (r: String)
        ensures
            r@ == self.spec_name(),
    {
        self.name.clone()
    }

    /// Get the objective direction.
    ///
    /// return: `ObjectiveDirection`
    pub fn direction(&self) -> (r: ObjectiveDirection)
        ensures
            r == self.spec_direction(),
    {
        self.direction
    }

    /// The text that describes the objective: "Objective '<name>' is <direction>".
    ///
    /// returns: `String`
    pub fn to_string(&self) -> (r: String)
        ensures
            r@ == self.spec_text(),
    {
        let mut s = String::from_str("Objective '");
        s.append(self.name.as_str());
        s.append("' is ");
        s.append(self.direction.to_string().as_str());
        s
    }

    /// The text that describes the objective for the Python interface.
    pub fn __repr__(&self) -> (r: String)
        ensures
            r@ == "Objective(name='"@ + self.spec_name() + "', direction='"@
                + self.spec_direction().spec_text() + "')"@,
    {
        let mut s = String::from_str("Objective(name='");
        s.append(self.name.as_str());
        s.append("', direction='");
        s.append(self.direction.to_string().as_str());
        s.append("')");
        s
    }

    /// The text that describes the objective for the Python interface.
    pub fn __str__(&self) -> (r: String)
        ensures
            r@ == "Objective(name='"@ + self.spec_name() + "', direction='"@
                + self.spec_direction().spec_text() + "')"@,
    {
        self.__repr__()
    }
}

} // verus!
