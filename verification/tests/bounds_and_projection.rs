use deoxys::bounds::{BoundsConstructionError, BoundsError, OperatorBounds, OperatorIntent, SafetyProjector};
use deoxys::double::Double;

fn d(x: f64) -> Double {
    Double::from_bits(x.to_bits())
}

fn f(x: Double) -> f64 {
    f64::from_bits(x.to_bits())
}

fn state_of(values: &[f64]) -> Vec<Double> {
    values.iter().map(|&x| d(x)).collect()
}

#[test]
fn test_operator_bounds_validation() {
    // Valid bounds should succeed
    let bounds = OperatorBounds::new(d(-2.0), d(2.0));
    assert!(bounds.is_ok());
    let bounds = bounds.unwrap();
    assert_eq!(f(bounds.min), -2.0);
    assert_eq!(f(bounds.max), 2.0);

    // Invalid bounds (min >= max) should fail
    let invalid_bounds = OperatorBounds::new(d(1.0), d(1.0));
    assert!(invalid_bounds.is_err());

    let invalid_bounds = OperatorBounds::new(d(2.0), d(1.0));
    assert!(invalid_bounds.is_err());
}

#[test]
fn test_default_bounds() {
    let bounds = OperatorBounds::default();
    assert_eq!(f(bounds.min), -1.0);
    assert_eq!(f(bounds.max), 1.0);
}

#[test]
fn bounds_construction_names_its_reason() {
    assert_eq!(OperatorBounds::new(d(1.0), d(1.0)).unwrap_err(), BoundsConstructionError::Inverted);
    assert_eq!(OperatorBounds::new(d(2.0), d(1.0)).unwrap_err(), BoundsConstructionError::Inverted);
    assert_eq!(OperatorBounds::new(d(f64::NAN), d(1.0)).unwrap_err(), BoundsConstructionError::NonFinite);
    assert_eq!(OperatorBounds::new(d(0.0), d(f64::INFINITY)).unwrap_err(), BoundsConstructionError::NonFinite);
    assert_eq!(
        OperatorBounds::new(d(f64::NEG_INFINITY), d(f64::INFINITY)).unwrap_err(),
        BoundsConstructionError::NonFinite
    );
    assert_eq!(OperatorBounds::new(d(0.0), d(-0.0)).unwrap_err(), BoundsConstructionError::Inverted);
    assert!(OperatorBounds::new(d(-0.5), d(0.5)).is_ok());
}

#[test]
fn operator_intent_accepts_exactly_finite_ordered_bounds() {
    assert!(OperatorIntent::new(d(1.0), d(1.0), "equal".to_string()).is_err());
    assert!(OperatorIntent::new(d(2.0), d(1.0), "inverted".to_string()).is_err());
    assert!(OperatorIntent::new(d(f64::NAN), d(1.0), "nan".to_string()).is_err());
    assert!(OperatorIntent::new(d(-1.0), d(f64::INFINITY), "infinite".to_string()).is_err());
    let intent = OperatorIntent::new(d(-0.5), d(0.5), "Standard bounds".to_string()).unwrap();
    assert_eq!(f(intent.min_bound), -0.5);
    assert_eq!(f(intent.max_bound), 0.5);
    assert_eq!(intent.description, "Standard bounds");
    let bounds = intent.bounds();
    assert_eq!(f(bounds.min), -0.5);
    assert_eq!(f(bounds.max), 0.5);
    assert!(bounds.is_valid());
}

#[test]
fn projection_clamps_every_element() {
    let bounds = OperatorBounds::new(d(-0.5), d(0.5)).unwrap();
    let state = state_of(&[0.0, 0.25, 0.5, 0.75, -0.25, -0.5, -0.75, 1e300, -1e300, 1e-320]);
    let projected = SafetyProjector::project(&state, &bounds).unwrap();
    let expected = [0.0, 0.25, 0.5, 0.5, -0.25, -0.5, -0.5, 0.5, -0.5, 1e-320];
    assert_eq!(projected.len(), 10);
    for i in 0..10 {
        assert_eq!(f(projected[i]), expected[i]);
        assert!(bounds.contains(projected[i]));
    }
}

#[test]
fn projection_of_a_projected_state_changes_nothing() {
    let bounds = OperatorBounds::new(d(-0.5), d(0.5)).unwrap();
    let state = state_of(&[3.0, -3.0, 0.1, -0.0, 0.5]);
    let once = SafetyProjector::project(&state, &bounds).unwrap();
    let twice = SafetyProjector::project(&once, &bounds).unwrap();
    assert_eq!(once, twice);
}

#[test]
fn projection_refuses_the_first_element_that_is_not_finite() {
    let bounds = OperatorBounds::default();
    let state = state_of(&[0.0, 0.1, f64::INFINITY, f64::NAN]);
    assert_eq!(
        SafetyProjector::project(&state, &bounds).unwrap_err(),
        BoundsError::NonFinite { index: 2, value: d(f64::INFINITY) }
    );
    let state = state_of(&[f64::NAN]);
    match SafetyProjector::project(&state, &bounds).unwrap_err() {
        BoundsError::NonFinite { index, value } => {
            assert_eq!(index, 0);
            assert!(value.is_nan());
        }
        other => panic!("unexpected {:?}", other),
    }
}

#[test]
fn projection_of_an_empty_state_is_empty() {
    let bounds = OperatorBounds::default();
    assert_eq!(SafetyProjector::project(&Vec::new(), &bounds).unwrap().len(), 0);
}
