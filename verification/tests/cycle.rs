use deoxys::bounds::BoundsError;
use deoxys::double::Double;
use deoxys::invariants::StabilityError;
use deoxys::rik::{
    BeliefStateTracker, CycleError, CycleStage, OperatorBounds, OperatorIntent, RikEngine,
};
use deoxys::substrate::SovereignState;

fn d(x: f64) -> Double {
    Double::from_bits(x.to_bits())
}

fn f(x: Double) -> f64 {
    f64::from_bits(x.to_bits())
}

fn state_of(values: &[f64]) -> Vec<Double> {
    values.iter().map(|&x| d(x)).collect()
}

fn is_lower_hex(text: &str) -> bool {
    text.chars().all(|c| c.is_ascii_digit() || ('a'..='f').contains(&c))
}

#[test]
fn test_set_operator_bounds() {
    let substrate = SovereignState::new("C_EQUALS_XNXALEXIS_ROOT");
    let mut engine = RikEngine::new(substrate);

    // Check default bounds
    assert_eq!(f(engine.operator_bounds().min), -1.0);
    assert_eq!(f(engine.operator_bounds().max), 1.0);

    // Set custom bounds
    let custom_bounds = OperatorBounds::new(d(-0.5), d(0.5)).unwrap();
    engine.set_operator_bounds(custom_bounds);

    assert_eq!(f(engine.operator_bounds().min), -0.5);
    assert_eq!(f(engine.operator_bounds().max), 0.5);
}

#[test]
fn test_cycle_respects_operator_bounds() {
    let substrate = SovereignState::new("C_EQUALS_XNXALEXIS_ROOT");
    let mut engine = RikEngine::new(substrate);

    // Set tight bounds
    let bounds = OperatorBounds::new(d(-0.5), d(0.5)).unwrap();
    engine.set_operator_bounds(bounds);

    // Execute cycle and verify it completes without error
    let result = engine.execute_cycle();
    assert!(result.is_ok());

    // Verify all values in belief_state are within bounds
    for &val in engine.get_state().iter() {
        let val = f(val);
        assert!(val >= -0.5 && val <= 0.5, "Value {} exceeds bounds [-0.5, 0.5]", val);
    }
}

#[test]
fn test_cycle_with_wide_bounds() {
    let substrate = SovereignState::new("C_EQUALS_XNXALEXIS_ROOT");
    let mut engine = RikEngine::new(substrate);

    // Set wide bounds
    let bounds = OperatorBounds::new(d(-10.0), d(10.0)).unwrap();
    engine.set_operator_bounds(bounds);

    // Execute cycle
    let result = engine.execute_cycle();
    assert!(result.is_ok());

    // Verify all values are within wide bounds
    for &val in engine.get_state().iter() {
        let val = f(val);
        assert!(val >= -10.0 && val <= 10.0, "Value {} exceeds bounds [-10.0, 10.0]", val);
    }
}

#[test]
fn a_new_engine_is_at_rest() {
    let engine = RikEngine::new(SovereignState::new("C_EQUALS_XNXALEXIS_ROOT"));
    assert_eq!(engine.get_state(), state_of(&[0.0; 10]));
    assert_eq!(engine.get_cycle_count(), 0);
    assert_eq!(engine.stage(), CycleStage::Idle);
    assert!(engine.sealed_state().is_empty());
    assert!(!engine.verify_provenance());
    assert_eq!(engine.public_key().len(), 32);
}

#[test]
fn the_first_cycle_adds_the_observation() {
    let mut engine = RikEngine::new(SovereignState::new("C_EQUALS_XNXALEXIS_ROOT"));
    let receipt = engine.execute_cycle().unwrap();
    // the clamp into [-1, 1] changes nothing
    assert_eq!(engine.get_state(), state_of(&[0.01; 10]));
    assert_eq!(receipt.hash.len(), 128);
    assert!(is_lower_hex(&receipt.hash));
    assert_eq!(engine.stage(), CycleStage::Complete);
    assert_eq!(engine.get_cycle_count(), 1);
    assert!(engine.verify_provenance());
    let sealed: String = engine.sealed_state().iter().map(|b| format!("{:02x}", b)).collect();
    assert_eq!(sealed, "2edeecbc3a083f54f9d64fff21af2049d9a6704d1e8dc2933135e5662b94f2ea");
}

#[test]
fn cycles_accumulate_as_native_addition_does() {
    let mut engine = RikEngine::new(SovereignState::new("C_EQUALS_XNXALEXIS_ROOT"));
    let mut native = 0.0f64;
    for n in 1..=20u64 {
        engine.execute_cycle().unwrap();
        native += 0.01;
        for &x in engine.get_state().iter() {
            assert_eq!(f(x), native);
        }
        assert_eq!(engine.get_cycle_count(), n);
    }
}

#[test]
fn the_energy_bound_stops_the_accumulation() {
    let mut engine = RikEngine::new(SovereignState::new("C_EQUALS_XNXALEXIS_ROOT"));
    let mut native = 0.0f64;
    let mut completed = 0u64;
    loop {
        native += 0.01;
        let mut energy = 0.0f64;
        for _ in 0..10 {
            energy += native * native;
        }
        let result = engine.execute_cycle();
        if energy > 1.0 {
            assert_eq!(
                result.err(),
                Some(CycleError::Stability(StabilityError::Unstable { energy: d(energy) }))
            );
            break;
        }
        assert!(result.is_ok());
        completed += 1;
    }
    // the failed cycle keeps its update, counts nothing and leaves the old receipt behind
    assert_eq!(completed, 31);
    assert_eq!(engine.get_cycle_count(), 31);
    assert_eq!(f(engine.get_state()[0]), native);
    assert!(matches!(
        engine.stage(),
        CycleStage::Failed(CycleError::Stability(StabilityError::Unstable { .. }))
    ));
    assert!(!engine.verify_provenance());
}

#[test]
fn a_wrong_token_fails_every_cycle() {
    for token in ["", "c_equals_xnxalexis_root", "C_EQUALS_XNXALEXIS_ROOT ", "C_EQUALS_XNXALEXIS_ROO", "root"] {
        let gate = SovereignState::new(token);
        assert!(!gate.verify_integrity());
        let mut engine = RikEngine::new(gate);
        for _ in 0..3 {
            assert_eq!(engine.execute_cycle().err(), Some(CycleError::IntegrityViolation));
            assert_eq!(engine.get_state(), state_of(&[0.0; 10]));
            assert_eq!(engine.get_cycle_count(), 0);
            assert_eq!(engine.stage(), CycleStage::Failed(CycleError::IntegrityViolation));
        }
    }
    assert!(SovereignState::new("C_EQUALS_XNXALEXIS_ROOT").verify_integrity());
}

#[test]
fn an_observation_that_is_not_finite_fails_the_projection() {
    let mut engine = RikEngine::new(SovereignState::new("C_EQUALS_XNXALEXIS_ROOT"));
    let mut observation = state_of(&[0.0; 10]);
    observation[3] = d(f64::NAN);
    observation[7] = d(f64::NAN);
    match engine.step(&observation).err() {
        Some(CycleError::Bounds(BoundsError::NonFinite { index, value })) => {
            assert_eq!(index, 3);
            assert!(value.is_nan());
        }
        other => panic!("unexpected {:?}", other),
    }
    assert_eq!(engine.get_cycle_count(), 0);
    assert!(engine.get_state()[3].is_nan());
}

#[test]
fn an_infinite_observation_fails_the_stability_check() {
    let mut engine = RikEngine::new(SovereignState::new("C_EQUALS_XNXALEXIS_ROOT"));
    let mut observation = state_of(&[0.0; 10]);
    observation[0] = d(f64::NEG_INFINITY);
    assert_eq!(
        engine.step(&observation).err(),
        Some(CycleError::Stability(StabilityError::Unstable { energy: d(f64::INFINITY) }))
    );
}

#[test]
fn a_step_clamps_into_tight_bounds() {
    let mut engine = RikEngine::new(SovereignState::new("C_EQUALS_XNXALEXIS_ROOT"));
    engine.set_operator_bounds(OperatorBounds::new(d(-0.125), d(0.125)).unwrap());
    let observation = state_of(&[0.25, -0.25, 0.125, -0.125, 0.0, 0.0625, -0.0625, 0.5, -0.5, 0.2]);
    engine.step(&observation).unwrap();
    assert_eq!(
        engine.get_state(),
        state_of(&[0.125, -0.125, 0.125, -0.125, 0.0, 0.0625, -0.0625, 0.125, -0.125, 0.125])
    );
    assert!(engine.verify_provenance());
}

#[test]
fn strict_entropy_mode_can_be_switched_on() {
    let mut engine = RikEngine::new(SovereignState::new("C_EQUALS_XNXALEXIS_ROOT"));
    engine.set_strict_entropy_mode(true);
    let spread = state_of(&[0.25, -0.25, 0.25, -0.25, 0.25, -0.25, 0.25, -0.25, 0.25, -0.25]);
    assert_eq!(
        engine.step(&spread).err(),
        Some(CycleError::Stability(StabilityError::EntropyViolation {
            variance: d(0.0625),
            threshold: d(0.001)
        }))
    );
    engine.set_strict_entropy_mode(false);
    let mut calm = RikEngine::new(SovereignState::new("C_EQUALS_XNXALEXIS_ROOT"));
    assert!(calm.step(&spread).is_ok());
}

#[test]
fn update_adds_element_by_element() {
    let state = state_of(&[0.1, 1.0, -1.0, 1e300, f64::MAX]);
    let observation = state_of(&[0.2, 2.0, 1.0, 1e300, f64::MAX]);
    let next = BeliefStateTracker::update(&state, &observation);
    assert_eq!(next, state_of(&[0.1 + 0.2, 3.0, 0.0, 2e300, f64::INFINITY]));
}

#[test]
fn a_cycle_under_an_intent_takes_its_bounds() {
    let mut engine = RikEngine::new(SovereignState::new("C_EQUALS_XNXALEXIS_ROOT"));
    let intent = OperatorIntent::new(d(-0.005), d(0.005), "tight".to_string()).unwrap();
    let receipt = engine.execute_cycle_with(&intent).unwrap();
    assert_eq!(engine.operator_bounds(), intent.bounds());
    assert_eq!(engine.get_state(), state_of(&[0.005; 10]));
    assert_eq!(receipt.hash.len(), 128);
    assert!(engine.verify_provenance());
}

#[test]
fn each_completed_cycle_renews_seal_and_receipt() {
    let mut engine = RikEngine::new(SovereignState::new("C_EQUALS_XNXALEXIS_ROOT"));
    let first = engine.execute_cycle().unwrap();
    let first_seal = engine.sealed_state().clone();
    let second = engine.execute_cycle().unwrap();
    assert_ne!(first.hash, second.hash);
    assert_ne!(&first_seal, engine.sealed_state());
    assert_eq!(engine.sealed_state().len(), 32);
    assert!(engine.verify_provenance());
}
