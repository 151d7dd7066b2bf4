use nsga_rs::problem::{
    Boolean, BoundedNumber, Choice, OError, Objective, ObjectiveDirection, PyVariableType,
    Variable, VariableType, VariableValue,
};

#[test]
fn objective_direction_default_and_text() {
    assert_eq!(ObjectiveDirection::default(), ObjectiveDirection::Minimise);
    assert_eq!(ObjectiveDirection::Minimise.to_string(), "minimised");
    assert_eq!(ObjectiveDirection::Maximise.to_string(), "maximised");
    assert_eq!(
        ObjectiveDirection::Maximise.__repr__(),
        "ObjectiveDirection(maximised)"
    );
}

#[test]
fn objective_accessors_and_text() {
    let o = Objective::new("Reduce cost", ObjectiveDirection::Minimise);
    assert_eq!(o.name(), "Reduce cost");
    assert_eq!(o.direction(), ObjectiveDirection::Minimise);
    assert_eq!(o.to_string(), "Objective 'Reduce cost' is minimised");
    let o = Objective::new("Profit", ObjectiveDirection::Maximise);
    assert_eq!(
        o.__repr__(),
        "Objective(name='Profit', direction='maximised')"
    );
    assert_eq!(o.__str__(), o.__repr__());
}

#[test]
fn bounded_number_rejects_bad_bounds() {
    let e = BoundedNumber::new("x", 5i64, 1i64).unwrap_err();
    assert_eq!(
        e,
        OError::TooLargeLowerBound("5".to_string(), "1".to_string())
    );
    let e = BoundedNumber::new("x", -7i64, -7i64).unwrap_err();
    assert_eq!(
        e,
        OError::TooLargeLowerBound("-7".to_string(), "-7".to_string())
    );
    let e = BoundedNumber::new("x", i64::MAX, i64::MIN).unwrap_err();
    assert_eq!(
        e,
        OError::TooLargeLowerBound(
            "9223372036854775807".to_string(),
            "-9223372036854775808".to_string()
        )
    );
}

#[test]
fn bounded_number_accessors_and_generation() {
    let v = BoundedNumber::new("var1", -3i64, 10i64).unwrap();
    assert_eq!(v.min_value(), -3);
    assert_eq!(v.max_value(), 10);
    assert_eq!(v.bounds(), (-3, 10));
    assert_eq!(v.name(), "var1");
    assert_eq!(v.to_string(), "BoundedNumber 'var1' to [-3; 10]");
    for _ in 0..200 {
        let x = v.generate();
        assert!((-3..=10).contains(&x));
    }
    let narrow = BoundedNumber::new("n", 0i64, 1i64).unwrap();
    let mut seen = [false, false];
    for _ in 0..200 {
        let x = narrow.generate();
        assert!(x == 0 || x == 1);
        seen[x as usize] = true;
    }
    // both bounds are drawn
    assert!(seen[0] && seen[1]);
    let wide = BoundedNumber::new("w", i64::MIN, i64::MAX).unwrap();
    let _ = wide.generate();
    let copy = v.clone();
    assert_eq!(copy.bounds(), (-3, 10));
}

#[test]
fn boolean_variable() {
    let b = Boolean::new("flag");
    assert_eq!(b.name(), "flag");
    assert_eq!(b.to_string(), "Boolean 'flag'");
    let mut seen_true = false;
    let mut seen_false = false;
    for _ in 0..200 {
        if b.generate() {
            seen_true = true;
        } else {
            seen_false = true;
        }
    }
    assert!(seen_true && seen_false);
}

#[test]
fn choice_variable() {
    let choices = vec!["a".to_string(), "bb".to_string(), "ccc".to_string()];
    let c = Choice::new("letters", choices.clone());
    assert_eq!(c.name(), "letters");
    assert_eq!(c.to_string(), "Choice 'letters': a, bb, ccc");
    let mut seen = vec![false; 3];
    for _ in 0..300 {
        let picked = c.generate();
        let position = choices.iter().position(|x| *x == picked).unwrap();
        seen[position] = true;
    }
    // every option gets picked
    assert!(seen.iter().all(|s| *s));
    let single = Choice::new("one", vec!["only".to_string()]);
    assert_eq!(single.generate(), "only");
    assert_eq!(Choice::new("none", vec![]).to_string(), "Choice 'none': ");
}

#[test]
fn variable_type_queries() {
    let i = VariableType::Integer(BoundedNumber::new("i", 1, 4).unwrap());
    let b = VariableType::Boolean(Boolean::new("b"));
    let c = VariableType::Choice(Choice::new("c", vec!["x".to_string()]));
    assert_eq!(i.name(), "i");
    assert_eq!(b.name(), "b");
    assert_eq!(c.name(), "c");
    assert_eq!(i.label(), "integer");
    assert_eq!(b.label(), "boolean");
    assert_eq!(c.label(), "choice");
    assert!(i.is_integer());
    assert!(i.can_generate_value());
    assert!(!VariableType::Choice(Choice::new("e", vec![])).can_generate_value());
    assert!(!b.is_integer());
    assert_eq!(i.to_string(), "BoundedNumber 'i' to [1; 4]");
    assert_eq!(b.to_string(), "Boolean 'b'");
    assert_eq!(c.to_string(), "Choice 'c': x");
    match i.generate_random_value() {
        VariableValue::Integer(v) => assert!((1..=4).contains(&v)),
        other => panic!("unexpected {:?}", other),
    }
    assert!(matches!(b.generate_random_value(), VariableValue::Boolean(_)));
    assert_eq!(c.generate_random_value(), VariableValue::Choice("x".to_string()));
}

#[test]
fn variable_value_equality_and_access() {
    assert_eq!(VariableValue::Integer(3), VariableValue::Integer(3));
    assert_ne!(VariableValue::Integer(3), VariableValue::Integer(4));
    assert_ne!(VariableValue::Boolean(true), VariableValue::Integer(1));
    assert_eq!(
        VariableValue::Choice("a".to_string()),
        VariableValue::Choice("a".to_string())
    );
    assert_ne!(
        VariableValue::Choice("a".to_string()),
        VariableValue::Choice("b".to_string())
    );
    assert_eq!(VariableValue::Integer(-12).as_integer(), Ok(-12));
    assert_eq!(
        VariableValue::Boolean(false).as_integer(),
        Err(OError::WrongVariableType("integer".to_string()))
    );
    assert_eq!(VariableValue::Integer(-12).debug_text(), "-12");
    assert_eq!(VariableValue::Boolean(true).debug_text(), "true");
    assert_eq!(VariableValue::Boolean(false).debug_text(), "false");
    assert_eq!(VariableValue::Choice("z".to_string()).debug_text(), "z");
}

#[test]
fn variable_value_type_matching() {
    let variables = vec![
        VariableType::Integer(BoundedNumber::new("n", 0, 9).unwrap()),
        VariableType::Boolean(Boolean::new("flag")),
        VariableType::Choice(Choice::new("colour", vec!["red".to_string()])),
    ];
    assert_eq!(VariableValue::Integer(2).match_type("n", &variables), Ok(true));
    assert_eq!(VariableValue::Boolean(true).match_type("n", &variables), Ok(false));
    assert_eq!(VariableValue::Boolean(true).match_type("flag", &variables), Ok(true));
    assert_eq!(
        VariableValue::Choice("red".to_string()).match_type("colour", &variables),
        Ok(true)
    );
    assert_eq!(
        VariableValue::Integer(1).match_type("missing", &variables),
        Err(OError::NonExistingName(
            "variable".to_string(),
            "missing".to_string()
        ))
    );
}

#[test]
fn python_variable_type_labels() {
    assert_eq!(PyVariableType::Real.__repr__(), "real");
    assert_eq!(PyVariableType::Integer.__str__(), "integer");
    assert_eq!(PyVariableType::Boolean.__repr__(), "boolean");
    assert_eq!(PyVariableType::Choice.__repr__(), "choice");
}
