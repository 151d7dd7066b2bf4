use vstd::prelude::*;

use crate::problem::error::OError;
use crate::problem::random::{choose_index, choose_u8, random_i64_in};
use crate::text::{join, signed_decimal, signed_decimal_string, join_strings, texts};

verus! {

/// A trait to define a decision variable.
pub trait Variable<T>: Sized {
    /// The variable name.
    spec fn variable_name(&self) -> Seq<char>;

    /// Whether a value is one that the variable can take.
    spec fn admits(&self, value: T) -> bool;

    /// Whether the variable can generate a value at all.
    spec fn can_generate(&self) -> bool;

    /// Generate a new random value for the variable.
    fn generate(&self) -> (value: T)
        requires
            self.can_generate(),
        ensures
            self.admits(value),
    ;

    /// Get the variable name
    fn name(&self) -> (name: String)
        ensures
            name@ == self.variable_name(),
    ;
}

/// A number that can bound a variable: numbers that are totally ordered, written as text and
/// drawn at random between two bounds.
pub trait BoundedNumberTrait: Sized + Copy {
    /// Whether `self` is at most `other`.
    spec fn spec_at_most(self, other: Self) -> bool;

    /// The text of the number.
    spec fn spec_text(self) -> Seq<char>;

    /// Any two numbers are ordered one way or the other.
    proof fn lemma_total(a: Self, b: Self)
        ensures
            a.spec_at_most(b) || b.spec_at_most(a),
    ;

    /// Whether `self` is at most `other`.
    fn is_at_most(&self, other: &Self) -> (r: bool)
        ensures
            r == self.spec_at_most(*other),
    ;

    /// The text of the number.
    fn to_text(&self) -> (r: String)
        ensures
            r@ == self.spec_text(),
    ;

    /// A random number between the two bounds, both included.
    fn random_between(low: Self, high: Self) -> (r: Self)
        requires
            low.spec_at_most(high),
        ensures
            low.spec_at_most(r),
            r.spec_at_most(high),
    ;
}

impl BoundedNumberTrait for i64 {
    open spec fn spec_at_most(self, other: i64) -> bool {
        self <= other
    }

    open spec fn spec_text(self) -> Seq<char> {
        signed_decimal(self as int)
    }

    proof fn lemma_total(a: i64, b: i64) {
    }

    fn is_at_most(&self, other: &i64) -> (r: bool) {
        *self <= *other
    }

    fn to_text(&self) -> (r: String) {
        signed_decimal_string(*self)
    }

    fn random_between(low: i64, high: i64) -> (r: i64) {
        random_i64_in(low, high)
    }
}

/// A variable between a lower and upper bound.
#[derive(Debug)]
pub struct BoundedNumber<N: BoundedNumberTrait> {
    /// The variable name
    name: String,
    /// The minimum value bound.
    min_value: N,
    /// The maximum value bound.
    max_value: N,
}

impl<N: BoundedNumberTrait> BoundedNumber<N> {
    /// The lower bound stays below the upper bound.
    #[verifier::type_invariant]
    spec fn bounds_ordered(self) -> bool {
        !self.max_value.spec_at_most(self.min_value)
    }

    /// The variable name.
    pub closed spec fn spec_name(self) -> Seq<char> {
        self.name@
    }

    /// The lower bound.
    pub closed spec fn spec_min(self) -> N {
        self.min_value
    }

    /// The upper bound.
    pub closed spec fn spec_max(self) -> N {
        self.max_value
    }

    /// The text that describes the variable.
    pub open spec fn spec_text(self) -> Seq<char> {
        "BoundedNumber '"@ + self.spec_name() + "' to ["@ + self.spec_min().spec_text() + "; "@
            + self.spec_max().spec_text() + "]"@
    }

    /// Create a new decision variable using a number bounded between a lower and upper bound.
    /// When a new value `N` for this variable is generated, the new value will be picked such that
    /// `min_value` <= `N` <= `max_value`.
    ///
    /// # Arguments
    ///
    /// * `name`: The variable name.
    /// * `min_value`: The lower bound.
    /// * `max_value`: The upper bound.
    ///
    /// returns: `Result<BoundedNumber, OError>`
    pub fn new(name: &str, min_value: N, max_value: N) -> (r: Result<BoundedNumber<N>, OError>)
        ensures
            max_value.spec_at_most(min_value) <==> r is Err,
            r matches Ok(v) ==> v.spec_name() == name@ && v.spec_min() == min_value
                && v.spec_max() == max_value,
            r matches Err(e) ==> e matches OError::TooLargeLowerBound(lower, upper) && lower@
                == min_value.spec_text() && upper@ == max_value.spec_text(),
    {
        if max_value.is_at_most(&min_value) {
            return Err(OError::TooLargeLowerBound(min_value.to_text(), max_value.to_text()));
        }
        Ok(BoundedNumber { name: String::from_str(name), min_value, max_value })
    }

    /// The variable lower bound.
    ///
    /// return: `N`
    pub fn min_value(&self) -> (r: N)
        ensures
            r == self.spec_min(),
    {
        self.min_value
    }

    /// The variable upper bound.
    ///
    /// return: `N`
    pub fn max_value(&self) -> (r: N)
        ensures
            r == self.spec_max(),
    {
        self.max_value
    }

    /// The variable upper and lower bound.
    ///
    /// return: `N`
    pub fn bounds(&self) -> (r: (N, N))
        ensures
            r == (self.spec_min(), self.spec_max()),
    {
        (self.min_value, self.max_value)
    }

    /// The text that describes the variable: "BoundedNumber '<name>' to [<min>; <max>]".
    ///
    /// returns: `String`
    pub fn to_string(&self) -> (r: String)
        ensures
            r@ == self.spec_text(),
    {
        let mut s = String::from_str("BoundedNumber '");
        s.append(self.name.as_str());
        s.append("' to [");
        s.append(self.min_value.to_text().as_str());
        s.append("; ");
        s.append(self.max_value.to_text().as_str());
        s.append("]");
        s
    }
}

impl<N: BoundedNumberTrait> Clone for BoundedNumber<N> {
    fn clone(&self) -> (r: BoundedNumber<N>)
        ensures
            r.spec_name() == self.spec_name(),
            r.spec_min() == self.spec_min(),
            r.spec_max() == self.spec_max(),
    {
        proof {
            use_type_invariant(self);
        }
        BoundedNumber { name: self.name.clone(), min_value: self.min_value, max_value: self.max_value }
    }
}

impl<N: BoundedNumberTrait> Variable<N> for BoundedNumber<N> {
    open spec fn variable_name(&self) -> Seq<char> {
        self.spec_name()
    }

    open spec fn admits(&self, value: N) -> bool {
        self.spec_min().spec_at_most(value) && value.spec_at_most(self.spec_max())
    }

    open spec fn can_generate(&self) -> bool {
        true
    }

    /// Randomly generate a new bounded number.
    fn generate(&self) -> (value: N) {
        proof {
            use_type_invariant(self);
            N::lemma_total(self.min_value, self.max_value);
        }
        N::random_between(self.min_value, self.max_value)
    }

    fn name(&self) -> (name: String) {
        self.name.clone()
    }
}

/// A boolean variable.
#[derive(Clone, Debug)]
pub struct Boolean {
    /// The variable name.
    name: String,
}

impl Boolean {
    /// The variable name.
    pub closed spec fn spec_name(self) -> Seq<char> {
        self.name@
    }

    /// The text that describes the variable.
    pub open spec fn spec_text(self) -> Seq<char> {
        "Boolean '"@ + self.spec_name() + "'"@
    }

    /// Create a new boolean variable.
    ///
    /// # Arguments
    ///
    /// * `name`: The variable name.
    ///
    /// returns: `Boolean`
    pub fn new(name: &str) -> (r: Boolean)
        ensures
            r.spec_name() == name@,
    {
        Boolean { name: String::from_str(name) }
    }

    /// The text that describes the variable: "Boolean '<name>'".
    ///
    /// returns: `String`
    pub fn to_string(&self) -> (r: String)
        ensures
            r@ == self.spec_text(),
    {
        let mut s = String::from_str("Boolean '");
        s.append(self.name.as_str());
        s.append("'");
        s
    }
}

impl Variable<bool> for Boolean {
    open spec fn variable_name(&self) -> Seq<char> {
        self.spec_name()
    }

    open spec fn admits(&self, value: bool) -> bool {
        true
    }

    open spec fn can_generate(&self) -> bool {
        true
    }

    /// Randomly generate a boolean value: a pick of 0 or 1, where 1 stands for `true`.
    ///
    /// return: `bool`
    fn generate(&self) -> (value: bool) {
        let bit = choose_u8(&[0u8, 1u8]).unwrap();
        bit != 0
    }

    fn name(&self) -> (name: String) {
        self.name.clone()
    }
}

/// A variable choice.
#[derive(Clone, Debug)]
pub struct Choice {
    /// The variable name.
    name: String,
    /// The list of choices.
    choices: Vec<String>,
}

impl Choice {
    /// The variable name.
    pub closed spec fn spec_name(self) -> Seq<char> {
        self.name@
    }

    /// The text of each choice, in order.
    pub closed spec fn spec_choices(self) -> Seq<Seq<char>> {
        texts(self.choices@)
    }

    /// The text that describes the variable.
    pub open spec fn spec_text(self) -> Seq<char> {
        "Choice '"@ + self.spec_name() + "': "@ + join(self.spec_choices(), ", "@)
    }

    /// Create a new list of choices.
    ///
    /// # Arguments
    ///
    /// * `name`: The variable name.
    /// * `choices`: The list of choices.
    ///
    /// returns: `Choice`
    pub fn new(name: &str, choices: Vec<String>) -> (r: Choice)
        ensures
            r.spec_name() == name@,
            r.spec_choices() == texts(choices@),
    {
        Choice { name: String::from_str(name), choices }
    }

    /// The text that describes the variable: "Choice '<name>': <choices joined by ', '>".
    ///
    /// returns: `String`
    pub fn to_string(&self) -> (r: String)
        ensures
            r@ == self.spec_text(),
    {
        let mut s = String::from_str("Choice '");
        s.append(self.name.as_str());
        s.append("': ");
        s.append(join_strings(&self.choices, ", ").as_str());
        s
    }
}

impl Variable<String> for Choice {
    open spec fn variable_name(&self) -> Seq<char> {
        self.spec_name()
    }

    open spec fn admits(&self, value: String) -> bool {
        self.spec_choices().contains(value@)
    }

    open spec fn can_generate(&self) -> bool {
        self.spec_choices().len() > 0
    }

    /// Randomly pick a choice.
    fn generate(&self) -> (value: String) {
        let choice_index = choose_index(self.choices.len()).unwrap();
        let value = self.choices[choice_index].clone();
        assert(self.spec_choices()[choice_index as int] == value@);
        value
    }

    fn name(&self) -> (name: String) {
        self.name.clone()
    }
}


/// The types of variables to set on a problem.
#[derive(Clone, Debug)]
pub enum VariableType {
    /// A discrete bounded variable (i64)
    Integer(BoundedNumber<i64>),
    /// A boolean variable
    Boolean(Boolean),
    /// A variable representing a choice (as string)
    Choice(Choice),
}

/// The value of a variable to set on an individual.
#[derive(Clone, Debug)]
pub enum VariableValue {
    /// The value for an integer number. This is an i64.
    Integer(i64),
    /// The value for a boolean variable.
    Boolean(bool),
    /// The value for a choice variable.
    Choice(String),
}

impl VariableType {
    /// The variable name.
    pub open spec fn spec_name(self) -> Seq<char> {
        match self {
            VariableType::Integer(t) => t.spec_name(),
            VariableType::Boolean(t) => t.spec_name(),
            VariableType::Choice(t) => t.spec_name(),
        }
    }

    /// The label of the variable's type.
    pub open spec fn spec_label(self) -> Seq<char> {
        match self {
            VariableType::Integer(_) => "integer"@,
            VariableType::Boolean(_) => "boolean"@,
            VariableType::Choice(_) => "choice"@,
        }
    }

    /// The text that describes the variable: that of the variable it holds.
    pub open spec fn spec_text(self) -> Seq<char> {
        match self {
            VariableType::Integer(t) => t.spec_text(),
            VariableType::Boolean(t) => t.spec_text(),
            VariableType::Choice(t) => t.spec_text(),
        }
    }

    /// Whether the variable can generate a value: a choice needs at least one option.
    pub open spec fn can_generate(self) -> bool {
        match self {
            VariableType::Choice(t) => t.can_generate(),
            _ => true,
        }
    }

    /// Whether `value` has the variable's type and is a value the variable can take.
    pub open spec fn admits(self, value: VariableValue) -> bool {
        match (self, value) {
            (VariableType::Integer(t), VariableValue::Integer(v)) => t.admits(v),
            (VariableType::Boolean(t), VariableValue::Boolean(v)) => t.admits(v),
            (VariableType::Choice(t), VariableValue::Choice(v)) => t.admits(v),
            _ => false,
        }
    }

    /// Whether `value` has the variable's type.
    pub open spec fn same_type(self, value: VariableValue) -> bool {
        match (self, value) {
            (VariableType::Integer(_), VariableValue::Integer(_)) => true,
            (VariableType::Boolean(_), VariableValue::Boolean(_)) => true,
            (VariableType::Choice(_), VariableValue::Choice(_)) => true,
            _ => false,
        }
    }

    /// Whether the variable can generate a value: false only for a choice with no option.
    pub fn can_generate_value(&self) -> (r: bool)
        ensures
            r == self.can_generate(),
    {
        match self {
            VariableType::Choice(c) => c.choices.len() > 0,
            _ => true,
        }
    }

    /// Generate a new random variable value based on its type.
    ///
    /// returns: `VariableValue`
    pub fn generate_random_value(&self) -> (r: VariableValue)
        requires
            self.can_generate(),
        ensures
            self.admits(r),
    {
        match self {
            VariableType::Integer(v) => VariableValue::Integer(v.generate()),
            VariableType::Boolean(v) => VariableValue::Boolean(v.generate()),
            VariableType::Choice(v) => VariableValue::Choice(v.generate()),
        }
    }

    /// Get the variable name.
    ///
    /// return: `String`
    pub fn name(&self) -> (r: String)
        ensures
            r@ == self.spec_name(),
    {
        match self {
            VariableType::Integer(t) => t.name.clone(),
            VariableType::Boolean(t) => t.name.clone(),
            VariableType::Choice(t) => t.name.clone(),
        }
    }

    /// The label of the variable's type: "integer", "boolean" or "choice".
    ///
    /// return: `String`
    pub fn label(&self) -> (r: String)
        ensures
            r@ == self.spec_label(),
    {
        let label = match self {
            VariableType::Integer(_) => "integer",
            VariableType::Boolean(_) => "boolean",
            VariableType::Choice(_) => "choice",
        };
        String::from_str(label)
    }

    /// Check if the variable is an integer number.
    ///
    /// return: `bool`
    pub fn is_integer(&self) -> (r: bool)
        ensures
            r == self is Integer,
    {
        match self {
            VariableType::Integer(_) => true,
            _ => false,
        }
    }

    /// The text that describes the variable.
    ///
    /// returns: `String`
    pub fn to_string(&self) -> (r: String)
        ensures
            r@ == self.spec_text(),
    {
        match self {
            VariableType::Integer(v) => v.to_string(),
            VariableType::Boolean(v) => v.to_string(),
            VariableType::Choice(v) => v.to_string(),
        }
    }
}

/// The index of the first variable of the list with the given name, if any.
pub open spec fn first_named(variables: Seq<VariableType>, name: Seq<char>) -> Option<int>
    decreases variables.len(),
{
    if variables.len() == 0 {
        None
    } else {
        match first_named(variables.drop_last(), name) {
            Some(i) => Some(i),
            None => if variables.last().spec_name() == name {
                Some(variables.len() - 1)
            } else {
                None
            },
        }
    }
}

/// The first variable named `name` is the one at the smallest index whose name is `name`;
/// there is none exactly when no variable has that name.
pub proof fn lemma_first_named_bounds(variables: Seq<VariableType>, name: Seq<char>)
    ensures
        first_named(variables, name) matches Some(i) ==> 0 <= i < variables.len()
            && variables[i].spec_name() == name && forall|j: int|
            0 <= j < i ==> variables[j].spec_name() != name,
        first_named(variables, name) is None ==> forall|j: int|
            0 <= j < variables.len() ==> variables[j].spec_name() != name,
    decreases variables.len(),
{
    if variables.len() > 0 {
        let rest = variables.drop_last();
        lemma_first_named_bounds(rest, name);
        assert forall|j: int| 0 <= j < rest.len() implies rest[j] == variables[j] by {}
    }
}

/// A value that a variable admits, as `generate_random_value` returns, has the type of that
/// variable, so `match_type` reports a match for it.
pub proof fn lemma_admitted_value_matches_type(variable: VariableType, value: VariableValue)
    requires
        variable.admits(value),
    ensures
        variable.same_type(value),
{
}

impl VariableValue {
    /// Whether the two values are of the same type and hold the same value.
    pub open spec fn same_value(self, other: VariableValue) -> bool {
        match (self, other) {
            (VariableValue::Integer(s), VariableValue::Integer(o)) => s == o,
            (VariableValue::Boolean(s), VariableValue::Boolean(o)) => s == o,
            (VariableValue::Choice(s), VariableValue::Choice(o)) => s@ == o@,
            _ => false,
        }
    }

    /// The text of the value alone, without its type.
    pub open spec fn spec_debug_text(self) -> Seq<char> {
        match self {
            VariableValue::Integer(v) => signed_decimal(v as int),
            VariableValue::Boolean(v) => if v {
                "true"@
            } else {
                "false"@
            },
            VariableValue::Choice(v) => v@,
        }
    }

    /// Check if the variable value matches the type of the variable with the given name in the
    /// problem's variables. This return an error if the variable name does not exist.
    ///
    /// # Arguments
    ///
    /// * `name`: The name of the variable in the problem.
    /// * `variables`: The variables of the problem being solved.
    ///
    /// returns: `Result<bool, OError>`
    pub fn match_type(&self, name: &str, variables: &Vec<VariableType>) -> (r: Result<bool, OError>)
        ensures
            match first_named(variables@, name@) {
                Some(i) => r == Ok::<bool, OError>(variables@[i].same_type(*self)),
                None => r matches Err(OError::NonExistingName(kind, n)) && kind@ == "variable"@
                    && n@ == name@,
            },
            first_named(variables@, name@) matches Some(i) ==> (r matches Ok(matched) && (matched
                <==> ((variables@[i] is Integer && *self is Integer) || (variables@[i] is Boolean
                && *self is Boolean) || (variables@[i] is Choice && *self is Choice)))),
    {
        proof {
            lemma_first_named_bounds(variables@, name@);
        }
        let target = String::from_str(name);
        let n = variables.len();
        let mut i: usize = 0;
        while i < n
            invariant
                n == variables.len(),
                target@ == name@,
                i <= n,
                forall|j: int| 0 <= j < i ==> variables@[j].spec_name() != name@,
                first_named(variables@, name@) matches Some(k) ==> i <= k,
            decreases n - i,
        {
            let variable_name = variables[i].name();
            if variable_name == target {
                proof {
                    lemma_first_named_bounds(variables@, name@);
                }
                let value = match &variables[i] {
                    VariableType::Integer(_) => matches!(self, VariableValue::Integer(_)),
                    VariableType::Boolean(_) => matches!(self, VariableValue::Boolean(_)),
                    VariableType::Choice(_) => matches!(self, VariableValue::Choice(_)),
                };
                return Ok(value);
            }
            proof {
                lemma_first_named_bounds(variables@, name@);
            }
            i = i + 1;
        }
        Err(OError::NonExistingName(String::from_str("variable"), target))
    }

    /// Get the value if the variable is of discrete type. This returns an error if the variable is
    /// not an integer.
    ///
    /// returns: `Result<i64, OError>`
    pub fn as_integer(&self) -> (r: Result<i64, OError>)
        ensures
            match *self {
                VariableValue::Integer(v) => r == Ok::<i64, OError>(v),
                _ => r matches Err(OError::WrongVariableType(t)) && t@ == "integer"@,
            },
    {
        if let VariableValue::Integer(v) = self {
            Ok(*v)
        } else {
            Err(OError::WrongVariableType(String::from_str("integer")))
        }
    }

    /// The text of the value alone, without its type: the number, `true` or `false`, or the
    /// choice.
    ///
    /// returns: `String`
    pub fn debug_text(&self) -> (r: String)
        ensures
            r@ == self.spec_debug_text(),
    {
        match self {
            VariableValue::Integer(v) => signed_decimal_string(*v),
            VariableValue::Boolean(v) => if *v {
                String::from_str("true")
            } else {
                String::from_str("false")
            },
            VariableValue::Choice(v) => v.clone(),
        }
    }
}

/// The type of a problem variable, as the Python interface names it.
#[derive(Clone, Copy, Debug, PartialEq, Eq, Structural)]
pub enum PyVariableType {
    Real,
    Integer,
    Boolean,
    Choice,
}

impl PyVariableType {
    /// The label of the type.
    pub open spec fn spec_label(self) -> Seq<char> {
        match self {
            PyVariableType::Real => "real"@,
            PyVariableType::Integer => "integer"@,
            PyVariableType::Boolean => "boolean"@,
            PyVariableType::Choice => "choice"@,
        }
    }

    /// The label of the type: "real", "integer", "boolean" or "choice".
    pub fn __repr__(&self) -> (r: String)
        ensures
            r@ == self.spec_label(),
    {
        let label = match self {
            PyVariableType::Real => "real",
            PyVariableType::Integer => "integer",
            PyVariableType::Boolean => "boolean",
            PyVariableType::Choice => "choice",
        };
        String::from_str(label)
    }

    /// The label of the type.
    pub fn __str__(&self) -> (r: String)
        ensures
            r@ == self.spec_label(),
    {
        self.__repr__()
    }
}

/// What each kind of variable admits, is labelled and is called: an integer variable admits the
/// integers between its bounds, both included; a boolean variable admits both booleans; a
/// choice variable admits exactly its options. The label names the kind and the name is the
/// name of the variable held.
pub proof fn lemma_variable_kinds(variable: VariableType, value: VariableValue)
    ensures
        variable matches VariableType::Integer(t) ==> (variable.admits(value) <==> (
        value matches VariableValue::Integer(v) && t.spec_min() <= v && v <= t.spec_max())),
        variable matches VariableType::Boolean(_) ==> (variable.admits(value) <==> value is Boolean),
        variable matches VariableType::Choice(t) ==> (variable.admits(value) <==> (
        value matches VariableValue::Choice(v) && exists|k: int|
            0 <= k < t.spec_choices().len() && t.spec_choices()[k] == v@)),
        variable matches VariableType::Integer(t) ==> variable.spec_label() == "integer"@
            && variable.spec_name() == t.spec_name(),
        variable matches VariableType::Boolean(t) ==> variable.spec_label() == "boolean"@
            && variable.spec_name() == t.spec_name(),
        variable matches VariableType::Choice(t) ==> variable.spec_label() == "choice"@
            && variable.spec_name() == t.spec_name(),
        PyVariableType::Real.spec_label() == "real"@,
        PyVariableType::Integer.spec_label() == "integer"@,
        PyVariableType::Boolean.spec_label() == "boolean"@,
        PyVariableType::Choice.spec_label() == "choice"@,
{
}

/// The text of a value alone: an integer in decimal, a boolean as `true` or `false`, a choice
/// as its text.
pub proof fn lemma_value_text(value: VariableValue)
    ensures
        value matches VariableValue::Integer(v) ==> value.spec_debug_text() == signed_decimal(
            v as int,
        ),
        value matches VariableValue::Boolean(b) ==> value.spec_debug_text() == if b {
            "true"@
        } else {
            "false"@
        },
        value matches VariableValue::Choice(c) ==> value.spec_debug_text() == c@,
{
}

/// A value has the type of a variable exactly when both are integers, both booleans or both
/// choices: an integer value never has the type of a boolean or choice variable, and so on.
pub proof fn lemma_same_type_is_same_kind(variable: VariableType, value: VariableValue)
    ensures
        variable.same_type(value) <==> ((variable is Integer && value is Integer) || (
        variable is Boolean && value is Boolean) || (variable is Choice && value is Choice)),
        variable is Integer && !(value is Integer) ==> !variable.same_type(value),
        variable is Boolean && !(value is Boolean) ==> !variable.same_type(value),
        variable is Choice && !(value is Choice) ==> !variable.same_type(value),
{
}

/// Two variable values are equal exactly when they are of the same type and hold the same
/// number, the same boolean or the same text; values of different types are never equal.
pub proof fn lemma_value_equality(a: VariableValue, b: VariableValue)
    ensures
        a.same_value(b) <==> ((a matches VariableValue::Integer(x) && b matches VariableValue::Integer(
            y,
        ) && x == y) || (a matches VariableValue::Boolean(x) && b matches VariableValue::Boolean(y)
            && x == y) || (a matches VariableValue::Choice(x) && b matches VariableValue::Choice(y)
            && x@ == y@)),
        forall|x: bool, y: bool|
            VariableValue::Boolean(x).same_value(VariableValue::Boolean(y)) <==> x == y,
        forall|x: i64, y: i64|
            VariableValue::Integer(x).same_value(VariableValue::Integer(y)) <==> x == y,
        forall|x: i64, y: bool| !VariableValue::Integer(x).same_value(VariableValue::Boolean(y)),
        a.same_value(b) == b.same_value(a),
        a.same_value(a),
{
}

impl PartialEq for VariableValue {
    fn eq(&self, other: &VariableValue) -> (r: bool)
        ensures
            r <==> ((*self matches VariableValue::Integer(x) && *other matches VariableValue::Integer(
                y,
            ) && x == y) || (*self matches VariableValue::Boolean(x)
                && *other matches VariableValue::Boolean(y) && x == y) || (
            *self matches VariableValue::Choice(x) && *other matches VariableValue::Choice(y) && x@
                == y@)),
    {
        match (self, other) {
            (VariableValue::Integer(s), VariableValue::Integer(o)) => *s == *o,
            (VariableValue::Boolean(s), VariableValue::Boolean(o)) => *s == *o,
            (VariableValue::Choice(s), VariableValue::Choice(o)) => *s == *o,
            _ => false,
        }
    }
}

impl vstd::std_specs::cmp::PartialEqSpecImpl for VariableValue {
    open spec fn obeys_eq_spec() -> bool {
        true
    }

    open spec fn eq_spec(&self, other: &VariableValue) -> bool {
        self.same_value(*other)
    }
}

} // verus!
