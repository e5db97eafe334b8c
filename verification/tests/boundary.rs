use deoxys::double::Double;
use deoxys::ffi::{
    deoxys_destroy, deoxys_get_cycle_count, deoxys_get_state, deoxys_init, deoxys_step,
    deoxys_verify_provenance, deoxys_version, DeoxysRegistry, DeoxysStatus,
};

fn d(x: f64) -> Double {
    Double::from_bits(x.to_bits())
}

fn state_of(values: &[f64]) -> Vec<Double> {
    values.iter().map(|&x| d(x)).collect()
}

#[test]
fn status_codes_are_the_documented_numbers() {
    assert_eq!(DeoxysStatus::Success.code(), 0);
    assert_eq!(DeoxysStatus::ErrorNullPointer.code(), -1);
    assert_eq!(DeoxysStatus::ErrorInvalidHandle.code(), -2);
    assert_eq!(DeoxysStatus::ErrorInvariantViolation.code(), -3);
    assert_eq!(DeoxysStatus::ErrorInternal.code(), -4);
}

#[test]
fn the_version_is_reported() {
    assert_eq!(deoxys_version(), "2.0.0");
}

#[test]
fn handles_count_up_from_one() {
    let mut registry = DeoxysRegistry::new();
    assert_eq!(deoxys_init(&mut registry, 10, 4, 2), 1);
    assert_eq!(deoxys_init(&mut registry, 3, 3, 3), 2);
    deoxys_destroy(&mut registry, 1);
    assert_eq!(deoxys_init(&mut registry, 10, 4, 2), 3);
    assert_eq!(registry.dimensions(1), None);
    assert_eq!(registry.dimensions(2), Some((3, 3, 3)));
    assert_eq!(registry.dimensions(3), Some((10, 4, 2)));
    assert_eq!(registry.dimensions(0), None);
    assert_eq!(registry.dimensions(4), None);
}

#[test]
fn the_state_width_does_not_follow_the_dimensions() {
    let mut registry = DeoxysRegistry::new();
    let handle = deoxys_init(&mut registry, 3, 1, 1);
    let mut output = state_of(&[9.0; 12]);
    assert_eq!(deoxys_get_state(&registry, handle, &mut output), DeoxysStatus::Success);
    assert_eq!(
        output,
        state_of(&[0.0, 0.0, 0.0, 0.0, 0.0, 0.0, 0.0, 0.0, 0.0, 0.0, 9.0, 9.0])
    );
}

#[test]
fn a_step_runs_one_cycle_and_copies_the_state_out() {
    let mut registry = DeoxysRegistry::new();
    let handle = deoxys_init(&mut registry, 10, 4, 2);
    let input = state_of(&[0.01; 10]);
    let mut output = state_of(&[9.0; 10]);
    assert_eq!(deoxys_step(&mut registry, handle, &input, &mut output), DeoxysStatus::Success);
    assert_eq!(output, state_of(&[0.01; 10]));
    assert_eq!(deoxys_get_cycle_count(&registry, handle), 1);
    assert_eq!(deoxys_verify_provenance(&registry, handle), DeoxysStatus::Success);
    assert_eq!(deoxys_step(&mut registry, handle, &input, &mut output), DeoxysStatus::Success);
    assert_eq!(output, state_of(&[0.02; 10]));
    assert_eq!(deoxys_get_cycle_count(&registry, handle), 2);
}

#[test]
fn a_short_input_is_filled_up_and_a_long_one_is_cut() {
    let mut registry = DeoxysRegistry::new();
    let handle = deoxys_init(&mut registry, 10, 4, 2);
    let mut output = state_of(&[9.0; 10]);
    assert_eq!(
        deoxys_step(&mut registry, handle, &state_of(&[0.25, 0.5]), &mut output),
        DeoxysStatus::Success
    );
    assert_eq!(output, state_of(&[0.25, 0.5, 0.0, 0.0, 0.0, 0.0, 0.0, 0.0, 0.0, 0.0]));
    let long = state_of(&[0.125; 12]);
    assert_eq!(deoxys_step(&mut registry, handle, &long, &mut output), DeoxysStatus::Success);
    assert_eq!(
        output,
        state_of(&[0.375, 0.625, 0.125, 0.125, 0.125, 0.125, 0.125, 0.125, 0.125, 0.125])
    );
}

#[test]
fn the_output_takes_as_much_of_the_state_as_fits() {
    let mut registry = DeoxysRegistry::new();
    let handle = deoxys_init(&mut registry, 10, 4, 2);
    let input = state_of(&[0.01; 10]);
    let mut short = state_of(&[9.0; 3]);
    assert_eq!(deoxys_step(&mut registry, handle, &input, &mut short), DeoxysStatus::Success);
    assert_eq!(short, state_of(&[0.01; 3]));
    let mut long = state_of(&[9.0; 12]);
    assert_eq!(deoxys_get_state(&registry, handle, &mut long), DeoxysStatus::Success);
    assert_eq!(
        long,
        state_of(&[0.01, 0.01, 0.01, 0.01, 0.01, 0.01, 0.01, 0.01, 0.01, 0.01, 9.0, 9.0])
    );
    let mut none: Vec<Double> = Vec::new();
    assert_eq!(deoxys_get_state(&registry, handle, &mut none), DeoxysStatus::Success);
    assert!(none.is_empty());
}

#[test]
fn a_failed_cycle_reports_an_invariant_violation() {
    let mut registry = DeoxysRegistry::new();
    let handle = deoxys_init(&mut registry, 10, 4, 2);
    let mut output = state_of(&[9.0; 10]);
    assert_eq!(
        deoxys_step(&mut registry, handle, &state_of(&[0.5; 10]), &mut output),
        DeoxysStatus::ErrorInvariantViolation
    );
    assert_eq!(output, state_of(&[9.0; 10]));
    assert_eq!(deoxys_get_cycle_count(&registry, handle), 0);
    assert_eq!(deoxys_get_state(&registry, handle, &mut output), DeoxysStatus::Success);
    assert_eq!(output, state_of(&[0.5; 10]));
    assert_eq!(deoxys_verify_provenance(&registry, handle), DeoxysStatus::ErrorInternal);
}

#[test]
fn provenance_fails_before_the_first_receipt() {
    let mut registry = DeoxysRegistry::new();
    let handle = deoxys_init(&mut registry, 10, 4, 2);
    assert_eq!(deoxys_verify_provenance(&registry, handle), DeoxysStatus::ErrorInternal);
}

#[test]
fn the_null_handle_is_refused() {
    let mut registry = DeoxysRegistry::new();
    deoxys_init(&mut registry, 10, 4, 2);
    let mut output = state_of(&[9.0; 10]);
    assert_eq!(
        deoxys_step(&mut registry, 0, &state_of(&[0.01; 10]), &mut output),
        DeoxysStatus::ErrorNullPointer
    );
    assert_eq!(deoxys_get_state(&registry, 0, &mut output), DeoxysStatus::ErrorNullPointer);
    assert_eq!(deoxys_verify_provenance(&registry, 0), DeoxysStatus::ErrorNullPointer);
    assert_eq!(deoxys_get_cycle_count(&registry, 0), 0);
    assert_eq!(output, state_of(&[9.0; 10]));
    deoxys_destroy(&mut registry, 0);
}

#[test]
fn a_destroyed_handle_stays_dead() {
    let mut registry = DeoxysRegistry::new();
    let first = deoxys_init(&mut registry, 10, 4, 2);
    let second = deoxys_init(&mut registry, 10, 4, 2);
    let input = state_of(&[0.01; 10]);
    let mut output = state_of(&[9.0; 10]);
    assert_eq!(deoxys_step(&mut registry, first, &input, &mut output), DeoxysStatus::Success);
    deoxys_destroy(&mut registry, first);
    deoxys_destroy(&mut registry, first);
    let mut untouched = state_of(&[9.0; 10]);
    assert_eq!(
        deoxys_step(&mut registry, first, &input, &mut untouched),
        DeoxysStatus::ErrorInvalidHandle
    );
    assert_eq!(deoxys_get_state(&registry, first, &mut untouched), DeoxysStatus::ErrorInvalidHandle);
    assert_eq!(deoxys_verify_provenance(&registry, first), DeoxysStatus::ErrorInvalidHandle);
    assert_eq!(deoxys_get_cycle_count(&registry, first), 0);
    assert_eq!(untouched, state_of(&[9.0; 10]));
    // the other engine is untouched
    assert_eq!(deoxys_get_cycle_count(&registry, second), 0);
    assert_eq!(deoxys_step(&mut registry, second, &input, &mut output), DeoxysStatus::Success);
    assert_eq!(deoxys_get_cycle_count(&registry, second), 1);
}

#[test]
fn a_handle_that_never_lived_is_refused() {
    let mut registry = DeoxysRegistry::new();
    let mut output = state_of(&[9.0; 10]);
    assert_eq!(
        deoxys_step(&mut registry, 1, &state_of(&[0.01; 10]), &mut output),
        DeoxysStatus::ErrorInvalidHandle
    );
    assert_eq!(deoxys_get_state(&registry, 7, &mut output), DeoxysStatus::ErrorInvalidHandle);
    assert_eq!(deoxys_get_state(&registry, usize::MAX, &mut output), DeoxysStatus::ErrorInvalidHandle);
    deoxys_destroy(&mut registry, 5);
}
