use ta_manager::{ParamType, Parameter, Parameters, Value};

#[test]
fn param_type_from_known_codes() {
    assert_eq!(ParamType::from(0), ParamType::Empty);
    assert_eq!(ParamType::from(1), ParamType::ValueInput);
    assert_eq!(ParamType::from(2), ParamType::ValueOutput);
    assert_eq!(ParamType::from(3), ParamType::ValueInout);
    assert_eq!(ParamType::from(5), ParamType::MemrefInput);
    assert_eq!(ParamType::from(6), ParamType::MemrefOutput);
    assert_eq!(ParamType::from(7), ParamType::MemrefInout);
}

#[test]
fn param_type_from_unknown_codes_is_empty() {
    assert_eq!(ParamType::from(4), ParamType::Empty);
    assert_eq!(ParamType::from(8), ParamType::Empty);
    assert_eq!(ParamType::from(u32::MAX), ParamType::Empty);
}

#[test]
fn param_type_code_inverts_from() {
    for code in [0u32, 1, 2, 3, 5, 6, 7] {
        assert_eq!(ParamType::from(code).code(), code);
    }
}

#[test]
fn parameter_default_is_empty() {
    let p = Parameter::default();
    assert_eq!(p.param_type, ParamType::Empty);
    assert!(p.raw.data.is_empty());
    assert_eq!(p.raw.value, Value { a: 0, b: 0 });
}

#[test]
fn parameters_default_has_four_empty_slots() {
    let ps = Parameters::default();
    for p in [&ps.0, &ps.1, &ps.2, &ps.3] {
        assert_eq!(*p, Parameter::default());
    }
}
