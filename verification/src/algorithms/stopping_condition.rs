use vstd::prelude::*;

use crate::text::{decimal, decimal_string, join, join_strings, texts};

verus! {

/// The type of stopping condition. Pick one type to inform the algorithm how/when it should
/// terminate the population evolution.
#[derive(Debug)]
pub enum StoppingCondition {
    /// Set a maximum duration (as number of minutes).
    MaxDurationAsMinutes(u32),
    /// Set a maximum duration (as number of hours).
    MaxDurationAsHours(u32),
    /// Set a maximum number of generations.
    MaxGeneration(u32),
    /// Set a maximum number of function evaluations.
    MaxFunctionEvaluations(u32),
    /// Stop when at least on condition is met (this acts as an OR operator).
    Any(Vec<StoppingCondition>),
    /// Stop when all conditions are met (this acts as an AND operator).
    All(Vec<StoppingCondition>),
}

/// The name of each condition, in order.
pub open spec fn condition_names(conditions: Seq<StoppingCondition>) -> Seq<Seq<char>>
    decreases conditions,
{
    if conditions.len() == 0 {
        Seq::empty()
    } else {
        condition_names(conditions.drop_last()).push(conditions.last().spec_name())
    }
}

/// The description of each condition, in order.
pub open spec fn condition_texts(conditions: Seq<StoppingCondition>) -> Seq<Seq<char>>
    decreases conditions,
{
    if conditions.len() == 0 {
        Seq::empty()
    } else {
        condition_texts(conditions.drop_last()).push(conditions.last().spec_text())
    }
}

impl StoppingCondition {
    /// The name that describes the condition: each single condition with its limit, and the
    /// conditions of `Any` joined by " OR ", those of `All` by " AND ".
    pub open spec fn spec_name(self) -> Seq<char>
        decreases self,
    {
        match self {
            StoppingCondition::MaxDurationAsMinutes(v) => "maximum duration="@ + decimal(v as nat)
                + " minutes"@,
            StoppingCondition::MaxDurationAsHours(v) => "maximum duration="@ + decimal(v as nat)
                + " hours"@,
            StoppingCondition::MaxGeneration(v) => "maximum number of generations="@ + decimal(
                v as nat,
            ),
            StoppingCondition::MaxFunctionEvaluations(v) => "maximum number of function evaluations="@
                + decimal(v as nat),
            StoppingCondition::Any(s) => join(condition_names(s@), " OR "@),
            StoppingCondition::All(s) => join(condition_names(s@), " AND "@),
        }
    }

    /// The short text of the condition: each single condition with its limit and unit, the
    /// conditions of `Any` joined by " OR ", those of `All` by " AND ".
    pub open spec fn spec_text(self) -> Seq<char>
        decreases self,
    {
        match self {
            StoppingCondition::MaxDurationAsMinutes(v) => decimal(v as nat) + " minutes"@,
            StoppingCondition::MaxDurationAsHours(v) => decimal(v as nat) + " hours"@,
            StoppingCondition::MaxGeneration(v) => decimal(v as nat) + " generations"@,
            StoppingCondition::MaxFunctionEvaluations(v) => decimal(v as nat) + " evaluations"@,
            StoppingCondition::Any(s) => join(condition_texts(s@), " OR "@),
            StoppingCondition::All(s) => join(condition_texts(s@), " AND "@),
        }
    }

    /// A name describing the stopping condition.
    ///
    /// returns: `String`
    pub fn name(&self) -> (r: String)
        ensures
            r@ == self.spec_name(),
        decreases self,
    {
        match self {
            StoppingCondition::MaxDurationAsMinutes(v) => {
                let mut s = String::from_str("maximum duration=");
                s.append(decimal_string(*v as u64).as_str());
                s.append(" minutes");
                s
            },
            StoppingCondition::MaxDurationAsHours(v) => {
                let mut s = String::from_str("maximum duration=");
                s.append(decimal_string(*v as u64).as_str());
                s.append(" hours");
                s
            },
            StoppingCondition::MaxGeneration(v) => {
                let mut s = String::from_str("maximum number of generations=");
                s.append(decimal_string(*v as u64).as_str());
                s
            },
            StoppingCondition::MaxFunctionEvaluations(v) => {
                let mut s = String::from_str("maximum number of function evaluations=");
                s.append(decimal_string(*v as u64).as_str());
                s
            },
            StoppingCondition::Any(conditions) => {
                let names = Self::names_of(conditions);
                join_strings(&names, " OR ")
            },
            StoppingCondition::All(conditions) => {
                let names = Self::names_of(conditions);
                join_strings(&names, " AND ")
            },
        }
    }

    fn names_of(conditions: &Vec<StoppingCondition>) -> (names: Vec<String>)
        ensures
            texts(names@) == condition_names(conditions@),
        decreases conditions,
    {
        let mut names: Vec<String> = Vec::new();
        let n = conditions.len();
        for i in 0..n
            invariant
                n == conditions.len(),
                texts(names@) == condition_names(conditions@.take(i as int)),
        {
            assert(conditions@.take(i + 1).drop_last() =~= conditions@.take(i as int));
            let name = conditions[i].name();
            names.push(name);
            assert(texts(names@) =~= texts(names@.drop_last()).push(name@));
        }
        assert(conditions@.take(n as int) =~= conditions@);
        names
    }
}


impl StoppingCondition {
    /// Whether the two conditions are of the same kind with the same limits, at every depth.
    pub open spec fn same_as(self, other: StoppingCondition) -> bool
        decreases self,
    {
        match (self, other) {
            (
                StoppingCondition::MaxDurationAsMinutes(a),
                StoppingCondition::MaxDurationAsMinutes(b),
            ) => a == b,
            (StoppingCondition::MaxDurationAsHours(a), StoppingCondition::MaxDurationAsHours(b)) => a
                == b,
            (StoppingCondition::MaxGeneration(a), StoppingCondition::MaxGeneration(b)) => a == b,
            (
                StoppingCondition::MaxFunctionEvaluations(a),
                StoppingCondition::MaxFunctionEvaluations(b),
            ) => a == b,
            (StoppingCondition::Any(a), StoppingCondition::Any(b)) => all_same(a@, b@),
            (StoppingCondition::All(a), StoppingCondition::All(b)) => all_same(a@, b@),
            _ => false,
        }
    }

    /// A copy of the condition, at every depth.
    fn duplicate(&self) -> (r: StoppingCondition)
        ensures
            r.same_as(*self),
        decreases self,
    {
        match self {
            StoppingCondition::MaxDurationAsMinutes(v) => StoppingCondition::MaxDurationAsMinutes(*v),
            StoppingCondition::MaxDurationAsHours(v) => StoppingCondition::MaxDurationAsHours(*v),
            StoppingCondition::MaxGeneration(v) => StoppingCondition::MaxGeneration(*v),
            StoppingCondition::MaxFunctionEvaluations(v) => {
                StoppingCondition::MaxFunctionEvaluations(*v)
            },
            StoppingCondition::Any(conditions) => StoppingCondition::Any(Self::duplicate_all(conditions)),
            StoppingCondition::All(conditions) => StoppingCondition::All(Self::duplicate_all(conditions)),
        }
    }

    fn duplicate_all(conditions: &Vec<StoppingCondition>) -> (r: Vec<StoppingCondition>)
        ensures
            all_same(r@, conditions@),
        decreases conditions,
    {
        let mut copies: Vec<StoppingCondition> = Vec::new();
        let n = conditions.len();
        for i in 0..n
            invariant
                n == conditions.len(),
                all_same(copies@, conditions@.take(i as int)),
        {
            let copy = conditions[i].duplicate();
            let ghost before = copies@;
            copies.push(copy);
            assert(copies@.drop_last() =~= before);
            assert(conditions@.take(i + 1).drop_last() =~= conditions@.take(i as int));
        }
        assert(conditions@.take(n as int) =~= conditions@);
        copies
    }
}

/// Whether the two lists hold, position by position, the same conditions.
pub open spec fn all_same(a: Seq<StoppingCondition>, b: Seq<StoppingCondition>) -> bool
    decreases a,
{
    &&& a.len() == b.len()
    &&& (a.len() == 0 || (all_same(a.drop_last(), b.drop_last()) && a.last().same_as(b.last())))
}

impl Clone for StoppingCondition {
    /// A copy of the condition, of the same kind with the same limits at every depth.
    fn clone(&self) -> (r: StoppingCondition)
        ensures
            r.same_as(*self),
    {
        self.duplicate()
    }
}

impl StoppingCondition {
    /// The short text of the condition.
    ///
    /// returns: `String`
    pub fn to_string(&self) -> (r: String)
        ensures
            r@ == self.spec_text(),
        decreases self,
    {
        match self {
            StoppingCondition::MaxDurationAsMinutes(v) => {
                let mut s = decimal_string(*v as u64);
                s.append(" minutes");
                s
            },
            StoppingCondition::MaxDurationAsHours(v) => {
                let mut s = decimal_string(*v as u64);
                s.append(" hours");
                s
            },
            StoppingCondition::MaxGeneration(v) => {
                let mut s = decimal_string(*v as u64);
                s.append(" generations");
                s
            },
            StoppingCondition::MaxFunctionEvaluations(v) => {
                let mut s = decimal_string(*v as u64);
                s.append(" evaluations");
                s
            },
            StoppingCondition::Any(conditions) => {
                let parts = Self::texts_of(conditions);
                join_strings(&parts, " OR ")
            },
            StoppingCondition::All(conditions) => {
                let parts = Self::texts_of(conditions);
                join_strings(&parts, " AND ")
            },
        }
    }

    fn texts_of(conditions: &Vec<StoppingCondition>) -> (parts: Vec<String>)
        ensures
            texts(parts@) == condition_texts(conditions@),
        decreases conditions,
    {
        let mut parts: Vec<String> = Vec::new();
        let n = conditions.len();
        for i in 0..n
            invariant
                n == conditions.len(),
                texts(parts@) == condition_texts(conditions@.take(i as int)),
        {
            assert(conditions@.take(i + 1).drop_last() =~= conditions@.take(i as int));
            let part = conditions[i].to_string();
            parts.push(part);
            assert(texts(parts@) =~= texts(parts@.drop_last()).push(part@));
        }
        assert(conditions@.take(n as int) =~= conditions@);
        parts
    }

    /// Whether the condition groups other conditions (`Any` or `All`).
    pub open spec fn is_group(self) -> bool {
        self is Any || self is All
    }

    /// Check whether the stopping condition is a vector and has nested vector in it.
    ///
    /// # Arguments
    ///
    /// * `conditions`: A vector of stopping conditions.
    ///
    /// returns: `bool`
    pub fn has_nested_vector(conditions: &[StoppingCondition]) -> (r: bool)
        ensures
            r == (exists|i: int| 0 <= i < conditions@.len() && (#[trigger] conditions@[i]).is_group()),
    {
        let n = conditions.len();
        for i in 0..n
            invariant
                n == conditions@.len(),
                forall|j: int| 0 <= j < i ==> !(#[trigger] conditions@[j]).is_group(),
        {
            match &conditions[i] {
                StoppingCondition::Any(_) | StoppingCondition::All(_) => {
                    return true;
                },
                _ => {},
            }
        }
        false
    }
}

/// A single stopping condition, as the Python interface offers it.
#[allow(non_camel_case_types)]
#[derive(Clone, Copy, Debug, PartialEq, Eq)]
pub enum PyStoppingConditionValue {
    max_duration_as_minutes(u32),
    max_duration_as_hours(u32),
    max_generation(u32),
    max_function_evaluations(u32),
}

impl PyStoppingConditionValue {
    /// The limit that the condition holds.
    pub open spec fn spec_value(self) -> u32 {
        match self {
            PyStoppingConditionValue::max_duration_as_minutes(v) => v,
            PyStoppingConditionValue::max_duration_as_hours(v) => v,
            PyStoppingConditionValue::max_generation(v) => v,
            PyStoppingConditionValue::max_function_evaluations(v) => v,
        }
    }

    /// The text that describes the condition.
    pub open spec fn spec_repr(self) -> Seq<char> {
        let attr = match self {
            PyStoppingConditionValue::max_duration_as_minutes(v) => "duration="@ + decimal(
                v as nat,
            ) + " minutes"@,
            PyStoppingConditionValue::max_duration_as_hours(v) => "duration="@ + decimal(v as nat)
                + " hours"@,
            PyStoppingConditionValue::max_generation(v) => "generation="@ + decimal(v as nat)
                + " generations"@,
            PyStoppingConditionValue::max_function_evaluations(v) => "NFE="@ + decimal(v as nat)
                + " evaluations"@,
        };
        "StoppingConditionValue("@ + attr + ")"@
    }

    /// The limit that the condition holds.
    pub fn value(&self) -> (r: u32)
        ensures
            r == self.spec_value(),
    {
        match self {
            PyStoppingConditionValue::max_duration_as_minutes(v) => *v,
            PyStoppingConditionValue::max_duration_as_hours(v) => *v,
            PyStoppingConditionValue::max_generation(v) => *v,
            PyStoppingConditionValue::max_function_evaluations(v) => *v,
        }
    }

    /// The text that describes the condition.
    pub fn __repr__(&self) -> (r: String)
        ensures
            r@ == self.spec_repr(),
    {
        let (label, v, unit) = match self {
            PyStoppingConditionValue::max_duration_as_minutes(v) => ("duration=", *v, " minutes"),
            PyStoppingConditionValue::max_duration_as_hours(v) => ("duration=", *v, " hours"),
            PyStoppingConditionValue::max_generation(v) => ("generation=", *v, " generations"),
            PyStoppingConditionValue::max_function_evaluations(v) => (
                "NFE=",
                *v,
                " evaluations",
            ),
        };
        let mut s = String::from_str("StoppingConditionValue(");
        s.append(label);
        s.append(decimal_string(v as u64).as_str());
        s.append(unit);
        s.append(")");
        s
    }

    /// The text that describes the condition.
    pub fn __str__(&self) -> (r: String)
        ensures
            r@ == self.spec_repr(),
    {
        self.__repr__()
    }

    /// The stopping condition that this value stands for.
    pub open spec fn spec_condition(self) -> StoppingCondition {
        match self {
            PyStoppingConditionValue::max_duration_as_minutes(v) => {
                StoppingCondition::MaxDurationAsMinutes(v)
            },
            PyStoppingConditionValue::max_duration_as_hours(v) => {
                StoppingCondition::MaxDurationAsHours(v)
            },
            PyStoppingConditionValue::max_generation(v) => StoppingCondition::MaxGeneration(v),
            PyStoppingConditionValue::max_function_evaluations(v) => {
                StoppingCondition::MaxFunctionEvaluations(v)
            },
        }
    }
}

impl From<PyStoppingConditionValue> for StoppingCondition {
    fn from(cond: PyStoppingConditionValue) -> (r: StoppingCondition) {
        match cond {
            PyStoppingConditionValue::max_duration_as_minutes(duration) => {
                StoppingCondition::MaxDurationAsMinutes(duration)
            },
            PyStoppingConditionValue::max_duration_as_hours(duration) => {
                StoppingCondition::MaxDurationAsHours(duration)
            },
            PyStoppingConditionValue::max_generation(generation) => {
                StoppingCondition::MaxGeneration(generation)
            },
            PyStoppingConditionValue::max_function_evaluations(nfe) => {
                StoppingCondition::MaxFunctionEvaluations(nfe)
            },
        }
    }
}

impl vstd::std_specs::convert::FromSpecImpl<PyStoppingConditionValue> for StoppingCondition {
    open spec fn obeys_from_spec() -> bool {
        true
    }

    open spec fn from_spec(cond: PyStoppingConditionValue) -> StoppingCondition {
        cond.spec_condition()
    }
}

/// What the Python interface accepts to build a stopping condition: one condition, or a list
/// of conditions of which any one stops the algorithm.
pub enum PyStoppingConditionMap {
    Condition(PyStoppingConditionValue),
    Vector(Vec<PyStoppingConditionValue>),
}

/// The stopping condition that each value stands for, in order.
pub open spec fn conditions_of_values(values: Seq<PyStoppingConditionValue>) -> Seq<
    StoppingCondition,
> {
    values.map_values(|v: PyStoppingConditionValue| v.spec_condition())
}

/// The single conditions of each condition, put end to end.
pub open spec fn flatten_conditions(conditions: Seq<StoppingCondition>) -> Seq<
    PyStoppingConditionValue,
>
    decreases conditions,
{
    if conditions.len() == 0 {
        Seq::empty()
    } else {
        flatten_conditions(conditions.drop_last()) + conditions.last().spec_conditions()
    }
}

/// Whether some condition of the list holds an `All` condition.
pub open spec fn any_holds_all(conditions: Seq<StoppingCondition>) -> bool
    decreases conditions,
{
    if conditions.len() == 0 {
        false
    } else {
        any_holds_all(conditions.drop_last()) || conditions.last().holds_all()
    }
}

impl StoppingCondition {
    /// Whether the condition is, or holds at any depth, an `All` condition.
    pub open spec fn holds_all(self) -> bool
        decreases self,
    {
        match self {
            StoppingCondition::All(_) => true,
            StoppingCondition::Any(s) => any_holds_all(s@),
            _ => false,
        }
    }

    /// The single conditions that make up the condition, in order.
    pub open spec fn spec_conditions(self) -> Seq<PyStoppingConditionValue>
        decreases self,
    {
        match self {
            StoppingCondition::MaxDurationAsMinutes(d) => seq![
                PyStoppingConditionValue::max_duration_as_minutes(d),
            ],
            StoppingCondition::MaxDurationAsHours(d) => seq![
                PyStoppingConditionValue::max_duration_as_hours(d),
            ],
            StoppingCondition::MaxGeneration(g) => seq![
                PyStoppingConditionValue::max_generation(g),
            ],
            StoppingCondition::MaxFunctionEvaluations(n) => seq![
                PyStoppingConditionValue::max_function_evaluations(n),
            ],
            StoppingCondition::Any(s) => flatten_conditions(s@),
            StoppingCondition::All(_) => Seq::empty(),
        }
    }

    /// Build a condition from what the Python interface accepts: the condition itself, or `Any`
    /// of the listed conditions.
    pub fn new(condition: PyStoppingConditionMap) -> (r: StoppingCondition)
        ensures
            match condition {
                PyStoppingConditionMap::Condition(c) => r == c.spec_condition(),
                PyStoppingConditionMap::Vector(cs) => r matches StoppingCondition::Any(v) && v@
                    == conditions_of_values(cs@),
            },
    {
        match condition {
            PyStoppingConditionMap::Condition(cond) => cond.into(),
            PyStoppingConditionMap::Vector(conds) => {
                let mut v: Vec<StoppingCondition> = Vec::new();
                let n = conds.len();
                for i in 0..n
                    invariant
                        n == conds.len(),
                        v@ == conditions_of_values(conds@.take(i as int)),
                {
                    v.push(StoppingCondition::from(conds[i]));
                    assert(v@ =~= conditions_of_values(conds@.take(i + 1)));
                }
                assert(conds@.take(n as int) =~= conds@);
                StoppingCondition::Any(v)
            },
        }
    }

    /// The single conditions that make up the condition, in order; an `Any` condition gives
    /// those of each of its conditions. An `All` condition, at any depth, is not supported.
    pub fn conditions(&self) -> (r: Vec<PyStoppingConditionValue>)
        requires
            !self.holds_all(),
        ensures
            r@ == self.spec_conditions(),
        decreases self,
    {
        match self {
            StoppingCondition::MaxDurationAsMinutes(d) => {
                vec![PyStoppingConditionValue::max_duration_as_minutes(*d)]
            },
            StoppingCondition::MaxDurationAsHours(d) => {
                vec![PyStoppingConditionValue::max_duration_as_hours(*d)]
            },
            StoppingCondition::MaxGeneration(g) => {
                vec![PyStoppingConditionValue::max_generation(*g)]
            },
            StoppingCondition::MaxFunctionEvaluations(nfe) => {
                vec![PyStoppingConditionValue::max_function_evaluations(*nfe)]
            },
            StoppingCondition::Any(conds) => Self::flatten_of(conds),
            StoppingCondition::All(_) => {
                // excluded by the precondition
                proof {
                    assert(false);
                }
                Vec::new()
            },
        }
    }

    fn flatten_of(conds: &Vec<StoppingCondition>) -> (out: Vec<PyStoppingConditionValue>)
        requires
            !any_holds_all(conds@),
        ensures
            out@ == flatten_conditions(conds@),
        decreases conds,
    {
        let mut out: Vec<PyStoppingConditionValue> = Vec::new();
        let n = conds.len();
        for i in 0..n
            invariant
                n == conds.len(),
                !any_holds_all(conds@),
                out@ == flatten_conditions(conds@.take(i as int)),
        {
            assert(conds@.take(i + 1).drop_last() =~= conds@.take(i as int));
            proof {
                lemma_member_holds_no_all(conds@, i as int);
            }
            let mut part = conds[i].conditions();
            out.append(&mut part);
        }
        assert(conds@.take(n as int) =~= conds@);
        out
    }

    /// The text that describes the condition.
    pub fn __repr__(&self) -> (r: String)
        ensures
            r@ == "StoppingCondition("@ + self.spec_name() + ")"@,
    {
        let mut s = String::from_str("StoppingCondition(");
        s.append(self.name().as_str());
        s.append(")");
        s
    }

    /// The text that describes the condition.
    pub fn __str__(&self) -> (r: String)
        ensures
            r@ == "StoppingCondition("@ + self.spec_name() + ")"@,
    {
        self.__repr__()
    }
}

/// Each single condition of the Python interface stands for the stopping condition of the same
/// kind with the same limit, lists back as itself, and holds its limit.
pub proof fn lemma_python_values_keep_kind_and_limit(d: u32)
    ensures
        PyStoppingConditionValue::max_duration_as_minutes(d).spec_condition()
            == StoppingCondition::MaxDurationAsMinutes(d),
        PyStoppingConditionValue::max_duration_as_hours(d).spec_condition()
            == StoppingCondition::MaxDurationAsHours(d),
        PyStoppingConditionValue::max_generation(d).spec_condition()
            == StoppingCondition::MaxGeneration(d),
        PyStoppingConditionValue::max_function_evaluations(d).spec_condition()
            == StoppingCondition::MaxFunctionEvaluations(d),
        StoppingCondition::MaxDurationAsMinutes(d).spec_conditions() == seq![
            PyStoppingConditionValue::max_duration_as_minutes(d),
        ],
        StoppingCondition::MaxDurationAsHours(d).spec_conditions() == seq![
            PyStoppingConditionValue::max_duration_as_hours(d),
        ],
        StoppingCondition::MaxGeneration(d).spec_conditions() == seq![
            PyStoppingConditionValue::max_generation(d),
        ],
        StoppingCondition::MaxFunctionEvaluations(d).spec_conditions() == seq![
            PyStoppingConditionValue::max_function_evaluations(d),
        ],
        PyStoppingConditionValue::max_duration_as_minutes(d).spec_value() == d,
        PyStoppingConditionValue::max_duration_as_hours(d).spec_value() == d,
        PyStoppingConditionValue::max_generation(d).spec_value() == d,
        PyStoppingConditionValue::max_function_evaluations(d).spec_value() == d,
        PyStoppingConditionValue::max_duration_as_minutes(d).spec_repr()
            == "StoppingConditionValue(duration="@ + decimal(d as nat) + " minutes)"@,
        PyStoppingConditionValue::max_duration_as_hours(d).spec_repr()
            == "StoppingConditionValue(duration="@ + decimal(d as nat) + " hours)"@,
        PyStoppingConditionValue::max_generation(d).spec_repr() == "StoppingConditionValue(generation="@
            + decimal(d as nat) + " generations)"@,
        PyStoppingConditionValue::max_function_evaluations(d).spec_repr()
            == "StoppingConditionValue(NFE="@ + decimal(d as nat) + " evaluations)"@,
{
    reveal_strlit("StoppingConditionValue(");
    reveal_strlit(")");
    reveal_strlit(" minutes");
    reveal_strlit(" minutes)");
    reveal_strlit(" hours");
    reveal_strlit(" hours)");
    reveal_strlit(" generations");
    reveal_strlit(" generations)");
    reveal_strlit(" evaluations");
    reveal_strlit(" evaluations)");
    reveal_strlit("duration=");
    reveal_strlit("StoppingConditionValue(duration=");
    reveal_strlit("generation=");
    reveal_strlit("StoppingConditionValue(generation=");
    reveal_strlit("NFE=");
    reveal_strlit("StoppingConditionValue(NFE=");
    assert("StoppingConditionValue("@ + "duration="@ =~= "StoppingConditionValue(duration="@);
    assert(" minutes"@ + ")"@ =~= " minutes)"@);
    assert(" hours"@ + ")"@ =~= " hours)"@);
    assert("StoppingConditionValue("@ + "generation="@ =~= "StoppingConditionValue(generation="@);
    assert(" generations"@ + ")"@ =~= " generations)"@);
    assert("StoppingConditionValue("@ + "NFE="@ =~= "StoppingConditionValue(NFE="@);
    assert(" evaluations"@ + ")"@ =~= " evaluations)"@);
    let m = decimal(d as nat);
    assert("StoppingConditionValue("@ + ("duration="@ + m + " minutes"@) + ")"@ =~= "StoppingConditionValue(duration="@ + m + " minutes)"@);
    assert("StoppingConditionValue("@ + ("duration="@ + m + " hours"@) + ")"@ =~= "StoppingConditionValue(duration="@ + m + " hours)"@);
    assert("StoppingConditionValue("@ + ("generation="@ + m + " generations"@) + ")"@ =~= "StoppingConditionValue(generation="@ + m + " generations)"@);
    assert("StoppingConditionValue("@ + ("NFE="@ + m + " evaluations"@) + ")"@ =~= "StoppingConditionValue(NFE="@ + m + " evaluations)"@);
}

/// The name and the text of each single condition: its kind with its limit in decimal and,
/// for a duration, its unit (minutes stay minutes, hours stay hours).
pub proof fn lemma_single_condition_descriptions(v: u32)
    ensures
        StoppingCondition::MaxDurationAsMinutes(v).spec_name() == "maximum duration="@ + decimal(
            v as nat,
        ) + " minutes"@,
        StoppingCondition::MaxDurationAsHours(v).spec_name() == "maximum duration="@ + decimal(
            v as nat,
        ) + " hours"@,
        StoppingCondition::MaxGeneration(v).spec_name() == "maximum number of generations="@
            + decimal(v as nat),
        StoppingCondition::MaxFunctionEvaluations(v).spec_name()
            == "maximum number of function evaluations="@ + decimal(v as nat),
        StoppingCondition::MaxDurationAsMinutes(v).spec_text() == decimal(v as nat) + " minutes"@,
        StoppingCondition::MaxDurationAsHours(v).spec_text() == decimal(v as nat) + " hours"@,
        StoppingCondition::MaxGeneration(v).spec_text() == decimal(v as nat) + " generations"@,
        StoppingCondition::MaxFunctionEvaluations(v).spec_text() == decimal(v as nat)
            + " evaluations"@,
{
}

/// The name of an `Any` condition is the names of its conditions, in order, joined by " OR ";
/// that of an `All` condition joins them by " AND "; the same holds of their texts.
pub proof fn lemma_group_descriptions(conditions: Vec<StoppingCondition>)
    ensures
        StoppingCondition::Any(conditions).spec_name() == join(
            Seq::new(conditions@.len(), |i: int| conditions@[i].spec_name()),
            " OR "@,
        ),
        StoppingCondition::All(conditions).spec_name() == join(
            Seq::new(conditions@.len(), |i: int| conditions@[i].spec_name()),
            " AND "@,
        ),
        StoppingCondition::Any(conditions).spec_text() == join(
            Seq::new(conditions@.len(), |i: int| conditions@[i].spec_text()),
            " OR "@,
        ),
        StoppingCondition::All(conditions).spec_text() == join(
            Seq::new(conditions@.len(), |i: int| conditions@[i].spec_text()),
            " AND "@,
        ),
{
    lemma_names_elementwise(conditions@);
}

proof fn lemma_names_elementwise(conditions: Seq<StoppingCondition>)
    ensures
        condition_names(conditions) == Seq::new(conditions.len(), |i: int| conditions[i].spec_name()),
        condition_texts(conditions) == Seq::new(conditions.len(), |i: int| conditions[i].spec_text()),
    decreases conditions.len(),
{
    if conditions.len() > 0 {
        lemma_names_elementwise(conditions.drop_last());
        assert(condition_names(conditions) =~= Seq::new(conditions.len(), |i: int| conditions[i].spec_name()));
        assert(condition_texts(conditions) =~= Seq::new(conditions.len(), |i: int| conditions[i].spec_text()));
    } else {
        assert(condition_names(conditions) =~= Seq::new(conditions.len(), |i: int| conditions[i].spec_name()));
        assert(condition_texts(conditions) =~= Seq::new(conditions.len(), |i: int| conditions[i].spec_text()));
    }
}

/// The single conditions of an `Any` condition are those of each of its conditions, put end
/// to end in order.
pub proof fn lemma_any_conditions_concatenate(conditions: Vec<StoppingCondition>, i: int)
    requires
        0 <= i <= conditions@.len(),
    ensures
        StoppingCondition::Any(conditions).spec_conditions() == flatten_conditions(conditions@.take(i))
            + flatten_conditions(conditions@.skip(i)),
        i == conditions@.len() - 1 ==> flatten_conditions(conditions@.skip(i))
            == conditions@[i].spec_conditions(),
{
    lemma_flatten_split(conditions@, i);
    if i == conditions@.len() - 1 {
        let last = conditions@.skip(i);
        assert(last.len() == 1);
        assert(last.drop_last() =~= Seq::<StoppingCondition>::empty());
        assert(last.last() == conditions@[i]);
        assert(flatten_conditions(last.drop_last()) =~= Seq::<PyStoppingConditionValue>::empty());
        assert(flatten_conditions(last) == flatten_conditions(last.drop_last())
            + last.last().spec_conditions());
        assert(flatten_conditions(last) =~= conditions@[i].spec_conditions());
    }
}

proof fn lemma_flatten_split(conditions: Seq<StoppingCondition>, i: int)
    requires
        0 <= i <= conditions.len(),
    ensures
        flatten_conditions(conditions) == flatten_conditions(conditions.take(i)) + flatten_conditions(
            conditions.skip(i),
        ),
    decreases conditions.len(),
{
    if i == conditions.len() {
        assert(conditions.take(i) =~= conditions);
        assert(conditions.skip(i) =~= Seq::<StoppingCondition>::empty());
    } else {
        let rest = conditions.drop_last();
        lemma_flatten_split(rest, i);
        assert(rest.take(i) =~= conditions.take(i));
        assert(conditions.skip(i).drop_last() =~= rest.skip(i));
        assert(conditions.skip(i).last() == conditions.last());
    }
}

/// An `All` condition is not supported when listing single conditions: a condition holds one
/// exactly when it is `All`, or is `Any` with some condition that holds one; single
/// conditions hold none.
pub proof fn lemma_holds_all(condition: StoppingCondition)
    ensures
        condition is All ==> condition.holds_all(),
        condition matches StoppingCondition::Any(v) ==> (condition.holds_all() <==> exists|i: int|
            0 <= i < v@.len() && (#[trigger] v@[i]).holds_all()),
        !condition.is_group() ==> !condition.holds_all(),
{
    if let StoppingCondition::Any(v) = condition {
        lemma_any_holds_all_exists(v@);
    }
}

proof fn lemma_any_holds_all_exists(conditions: Seq<StoppingCondition>)
    ensures
        any_holds_all(conditions) <==> exists|i: int|
            0 <= i < conditions.len() && (#[trigger] conditions[i]).holds_all(),
    decreases conditions.len(),
{
    if conditions.len() > 0 {
        let rest = conditions.drop_last();
        lemma_any_holds_all_exists(rest);
        if any_holds_all(rest) {
            let i = choose|i: int| 0 <= i < rest.len() && (#[trigger] rest[i]).holds_all();
            assert(conditions[i] == rest[i]);
        }
        if exists|i: int| 0 <= i < conditions.len() && (#[trigger] conditions[i]).holds_all() {
            let i = choose|i: int| 0 <= i < conditions.len() && (#[trigger] conditions[i]).holds_all();
            if i < conditions.len() - 1 {
                assert(rest[i] == conditions[i]);
            }
        }
    }
}

/// A single condition converted to a stopping condition gives back that condition alone when
/// its conditions are listed, and holds no `All` condition.
pub proof fn lemma_value_round_trip(value: PyStoppingConditionValue)
    ensures
        !value.spec_condition().holds_all(),
        value.spec_condition().spec_conditions() == seq![value],
{
}

/// A list of single conditions built into an `Any` condition gives back the same list, in the
/// same order, when its conditions are listed, and holds no `All` condition.
pub proof fn lemma_list_round_trip(values: Seq<PyStoppingConditionValue>)
    ensures
        !any_holds_all(conditions_of_values(values)),
        flatten_conditions(conditions_of_values(values)) == values,
    decreases values.len(),
{
    if values.len() > 0 {
        let rest = values.drop_last();
        lemma_list_round_trip(rest);
        assert(conditions_of_values(values).drop_last() =~= conditions_of_values(rest));
        lemma_value_round_trip(values.last());
        assert(rest.push(values.last()) =~= values);
    }
}

/// Two conditions of the same kind with the same limits at every depth (a condition and its
/// clone) have the same name, the same text and the same single conditions.
pub proof fn lemma_same_conditions_describe_alike(a: StoppingCondition, b: StoppingCondition)
    requires
        a.same_as(b),
    ensures
        a.spec_name() == b.spec_name(),
        a.spec_text() == b.spec_text(),
        a.spec_conditions() == b.spec_conditions(),
        a.holds_all() == b.holds_all(),
    decreases a,
{
    match (a, b) {
        (StoppingCondition::Any(x), StoppingCondition::Any(y)) => {
            lemma_same_lists_describe_alike(x@, y@);
        },
        (StoppingCondition::All(x), StoppingCondition::All(y)) => {
            lemma_same_lists_describe_alike(x@, y@);
        },
        _ => {},
    }
}

proof fn lemma_same_lists_describe_alike(a: Seq<StoppingCondition>, b: Seq<StoppingCondition>)
    requires
        all_same(a, b),
    ensures
        condition_names(a) == condition_names(b),
        condition_texts(a) == condition_texts(b),
        flatten_conditions(a) == flatten_conditions(b),
        any_holds_all(a) == any_holds_all(b),
    decreases a,
{
    if a.len() > 0 {
        lemma_same_lists_describe_alike(a.drop_last(), b.drop_last());
        lemma_same_conditions_describe_alike(a.last(), b.last());
    }
}

proof fn lemma_member_holds_no_all(conditions: Seq<StoppingCondition>, i: int)
    requires
        0 <= i < conditions.len(),
        !any_holds_all(conditions),
    ensures
        !conditions[i].holds_all(),
    decreases conditions.len(),
{
    if i < conditions.len() - 1 {
        lemma_member_holds_no_all(conditions.drop_last(), i);
    }
}

} // verus!
