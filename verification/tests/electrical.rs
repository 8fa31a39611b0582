use std::cell::RefCell;

use fbw_systems::float_bits::is_nan;
use fbw_systems::electrical::{
    encode_toggle_event, generate_variable_names, toggle_event_name,
    toggle_variable_name, CircuitBreaker, CircuitBreakerBoard, ElectricalElementIdentifier,
    VariableIdentifier,
};

fn board() -> CircuitBreakerBoard<3, 4> {
    let ids: Vec<Vec<ElectricalElementIdentifier>> = (0..3)
        .map(|r| (0..4).map(|c| ElectricalElementIdentifier { id: 10 * r + c }).collect())
        .collect();
    let register = |name: String| VariableIdentifier {
        id: match name.as_str() {
            "CB_P_A" => 1,
            "CB_P_B" => 2,
            "CB_P_C" => 3,
            _ => 99,
        },
    };
    CircuitBreakerBoard::<3, 4>::new("P", register, &ids)
}

fn states(b: &CircuitBreakerBoard<3, 4>) -> Vec<u64> {
    b.write().into_iter().map(|(_, v)| v).collect()
}

#[test]
fn breaker_toggles_and_conducts_when_not_tripped() {
    let mut cb = CircuitBreaker::new(ElectricalElementIdentifier { id: 7 });
    assert!(!cb.is_tripped());
    assert!(cb.is_conductive());
    cb.toggle();
    assert!(cb.is_tripped());
    assert!(!cb.is_conductive());
    assert_eq!(cb.input_identifier(), ElectricalElementIdentifier { id: 7 });
    assert_eq!(cb.output_identifier(), ElectricalElementIdentifier { id: 7 });
    cb.toggle();
    assert!(!cb.is_tripped());
}

#[test]
fn nan_request_changes_nothing() {
    let mut b = board();
    b.read(f64::NAN.to_bits());
    assert_eq!(states(&b), vec![0, 0, 0]);
}

#[test]
fn encoded_request_trips_addressed_breaker() {
    let mut b = board();
    let bits = encode_toggle_event(1, 2);
    assert!(!f64::from_bits(bits).is_nan());
    b.read(bits);
    assert_eq!(states(&b), vec![0, 1 << 2, 0]);
    let written = b.write();
    assert_eq!(written[1].0, VariableIdentifier { id: 2 });
}

#[test]
fn double_toggle_flips_state_bit_once() {
    let mut b = board();
    b.toggle_breaker(2, 3);
    b.toggle_breaker(2, 3);
    // The breaker is reset again, but its bit stays set: only trips flip the bit.
    assert_eq!(states(&b), vec![0, 0, 1 << 3]);
    b.toggle_breaker(2, 3);
    assert_eq!(states(&b), vec![0, 0, 0]);
}

#[test]
fn out_of_range_request_is_ignored() {
    let mut b = board();
    b.toggle_breaker(3, 0);
    b.toggle_breaker(0, 4);
    b.read(encode_toggle_event(0, 100));
    assert_eq!(states(&b), vec![0, 0, 0]);
}

#[test]
fn toggle_encoding_round_trip() {
    let bits = encode_toggle_event(0xDEAD_BEEF, 0x1234);
    assert_eq!(bits & 0xFFFF_FFFF, 0xDEAD_BEEF);
    assert_eq!(bits >> 32, 0x1234);
}

#[test]
fn nan_detection_matches_f64() {
    for v in [0.0f64, -0.0, 1.5, f64::INFINITY, f64::NEG_INFINITY, f64::NAN, -f64::NAN] {
        assert_eq!(is_nan(v.to_bits()), v.is_nan());
    }
    assert!(is_nan(0x7FF0_0000_0000_0001));
    assert!(!is_nan(0x7FF0_0000_0000_0000));
}

#[test]
fn variable_names() {
    assert_eq!(toggle_variable_name("OVHD"), "CB_OVHD_TOGGLE_ROW_COL");
    assert_eq!(toggle_event_name("OVHD"), "CB_OVHD_TOGGLE");
    assert_eq!(
        generate_variable_names("OVHD", 3),
        vec!["CB_OVHD_A".to_string(), "CB_OVHD_B".to_string(), "CB_OVHD_C".to_string()]
    );
    assert_eq!(generate_variable_names("X", 26)[25], "CB_X_Z");
}

#[test]
fn board_registers_row_variables_then_the_toggle_variable() {
    let seen: RefCell<Vec<String>> = RefCell::new(Vec::new());
    let register = |name: String| {
        seen.borrow_mut().push(name);
        VariableIdentifier { id: seen.borrow().len() }
    };
    let ids: Vec<Vec<ElectricalElementIdentifier>> =
        (0..2).map(|r| vec![ElectricalElementIdentifier { id: r }]).collect();
    let b = CircuitBreakerBoard::<2, 1>::new("OVHD", register, &ids);
    assert_eq!(
        *seen.borrow(),
        vec!["CB_OVHD_A".to_string(), "CB_OVHD_B".to_string(), "CB_OVHD_TOGGLE_ROW_COL".to_string()]
    );
    let written: Vec<(usize, u64)> = b.write().into_iter().map(|(v, w)| (v.id, w)).collect();
    assert_eq!(written, vec![(1, 0), (2, 0)]);
}
