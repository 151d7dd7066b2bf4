use nsga_rs::algorithms::{PyStoppingConditionMap, PyStoppingConditionValue, StoppingCondition};

#[test]
fn name_of_single_conditions() {
    assert_eq!(
        StoppingCondition::MaxDurationAsMinutes(5).name(),
        "maximum duration=5 minutes"
    );
    assert_eq!(
        StoppingCondition::MaxDurationAsHours(12).name(),
        "maximum duration=12 hours"
    );
    assert_eq!(
        StoppingCondition::MaxGeneration(1000).name(),
        "maximum number of generations=1000"
    );
    assert_eq!(
        StoppingCondition::MaxFunctionEvaluations(0).name(),
        "maximum number of function evaluations=0"
    );
    assert_eq!(
        StoppingCondition::MaxGeneration(u32::MAX).name(),
        "maximum number of generations=4294967295"
    );
}

#[test]
fn name_of_grouped_conditions() {
    let any = StoppingCondition::Any(vec![
        StoppingCondition::MaxGeneration(10),
        StoppingCondition::MaxDurationAsMinutes(5),
    ]);
    assert_eq!(
        any.name(),
        "maximum number of generations=10 OR maximum duration=5 minutes"
    );
    let all = StoppingCondition::All(vec![
        StoppingCondition::MaxFunctionEvaluations(300),
        StoppingCondition::MaxDurationAsHours(2),
        StoppingCondition::MaxGeneration(7),
    ]);
    assert_eq!(
        all.name(),
        "maximum number of function evaluations=300 AND maximum duration=2 hours AND maximum number of generations=7"
    );
    assert_eq!(StoppingCondition::Any(vec![]).name(), "");
    let nested = StoppingCondition::All(vec![any, StoppingCondition::MaxGeneration(3)]);
    assert_eq!(
        nested.name(),
        "maximum number of generations=10 OR maximum duration=5 minutes AND maximum number of generations=3"
    );
}

#[test]
fn display_text_of_conditions() {
    assert_eq!(StoppingCondition::MaxDurationAsMinutes(5).to_string(), "5 minutes");
    assert_eq!(StoppingCondition::MaxDurationAsHours(1).to_string(), "1 hours");
    assert_eq!(StoppingCondition::MaxGeneration(250).to_string(), "250 generations");
    assert_eq!(
        StoppingCondition::MaxFunctionEvaluations(9000).to_string(),
        "9000 evaluations"
    );
    let any = StoppingCondition::Any(vec![
        StoppingCondition::MaxGeneration(10),
        StoppingCondition::MaxFunctionEvaluations(20),
    ]);
    assert_eq!(any.to_string(), "10 generations OR 20 evaluations");
    let all = StoppingCondition::All(vec![
        StoppingCondition::MaxGeneration(10),
        StoppingCondition::MaxDurationAsHours(3),
    ]);
    assert_eq!(all.to_string(), "10 generations AND 3 hours");
}

#[test]
fn nested_vector_detection() {
    assert!(!StoppingCondition::has_nested_vector(&[]));
    assert!(!StoppingCondition::has_nested_vector(&[
        StoppingCondition::MaxGeneration(1),
        StoppingCondition::MaxDurationAsHours(1),
    ]));
    assert!(StoppingCondition::has_nested_vector(&[
        StoppingCondition::MaxGeneration(1),
        StoppingCondition::Any(vec![]),
    ]));
    assert!(StoppingCondition::has_nested_vector(&[StoppingCondition::All(vec![
        StoppingCondition::MaxGeneration(1)
    ])]));
}

#[test]
fn python_condition_values() {
    let v = PyStoppingConditionValue::max_duration_as_hours(4);
    assert_eq!(v.value(), 4);
    assert_eq!(v.__repr__(), "StoppingConditionValue(duration=4 hours)");
    assert_eq!(
        PyStoppingConditionValue::max_duration_as_minutes(30).__repr__(),
        "StoppingConditionValue(duration=30 minutes)"
    );
    assert_eq!(
        PyStoppingConditionValue::max_generation(8).__str__(),
        "StoppingConditionValue(generation=8 generations)"
    );
    assert_eq!(
        PyStoppingConditionValue::max_function_evaluations(99).__repr__(),
        "StoppingConditionValue(NFE=99 evaluations)"
    );
    assert_eq!(PyStoppingConditionValue::max_function_evaluations(99).value(), 99);
}

#[test]
fn python_conversion_round_trip() {
    let c = StoppingCondition::from(PyStoppingConditionValue::max_generation(12));
    assert!(matches!(c, StoppingCondition::MaxGeneration(12)));
    assert_eq!(c.conditions(), vec![PyStoppingConditionValue::max_generation(12)]);

    let single = StoppingCondition::new(PyStoppingConditionMap::Condition(
        PyStoppingConditionValue::max_duration_as_minutes(3),
    ));
    assert!(matches!(single, StoppingCondition::MaxDurationAsMinutes(3)));

    let values = vec![
        PyStoppingConditionValue::max_generation(5),
        PyStoppingConditionValue::max_function_evaluations(50),
        PyStoppingConditionValue::max_duration_as_hours(2),
    ];
    let any = StoppingCondition::new(PyStoppingConditionMap::Vector(values.clone()));
    assert!(matches!(any, StoppingCondition::Any(_)));
    assert_eq!(any.conditions(), values);
    assert_eq!(
        any.__repr__(),
        "StoppingCondition(maximum number of generations=5 OR maximum number of function evaluations=50 OR maximum duration=2 hours)"
    );
}

#[test]
fn nested_any_conditions_are_flattened() {
    let c = StoppingCondition::Any(vec![
        StoppingCondition::MaxGeneration(1),
        StoppingCondition::Any(vec![
            StoppingCondition::MaxDurationAsHours(2),
            StoppingCondition::MaxFunctionEvaluations(3),
        ]),
    ]);
    assert_eq!(
        c.conditions(),
        vec![
            PyStoppingConditionValue::max_generation(1),
            PyStoppingConditionValue::max_duration_as_hours(2),
            PyStoppingConditionValue::max_function_evaluations(3),
        ]
    );
    assert_eq!(c.__str__(), "StoppingCondition(maximum number of generations=1 OR maximum duration=2 hours OR maximum number of function evaluations=3)");
}

#[test]
fn cloned_condition_describes_alike() {
    let c = StoppingCondition::All(vec![
        StoppingCondition::MaxGeneration(4),
        StoppingCondition::Any(vec![StoppingCondition::MaxDurationAsHours(1)]),
    ]);
    let copy = c.clone();
    assert_eq!(copy.name(), c.name());
    assert_eq!(copy.to_string(), "4 generations AND 1 hours");
}
