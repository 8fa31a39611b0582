use fbw_systems::parameters::{
    build_a320_params, build_a380_params, format_unit, infer_group, make_param,
    parse_header_name, split_unit_suffix, to_title_case,
};
use fbw_systems::text::{chars_of, split_chars, split_whitespace_chars};

#[test]
fn title_case_of_snake_case_field() {
    assert_eq!(to_title_case("aircraft_V_indicated"), "Aircraft V Indicated");
    assert_eq!(to_title_case("__leading__and  spaces_"), "Leading And Spaces");
    assert_eq!(to_title_case(""), "");
}

#[test]
fn title_case_uses_unicode_uppercase() {
    assert_eq!(to_title_case("élan_vital"), "Élan Vital");
    assert_eq!(to_title_case("ßa"), "SSa");
}

#[test]
fn unit_suffix_is_searched_from_the_end_of_the_table() {
    // The table is searched from its last entry ("s") first, so "_deg_s" loses only "s".
    assert_eq!(
        split_unit_suffix("aircraft_qk_deg_s"),
        ("aircraft_qk_deg".to_string(), "s".to_string())
    );
    assert_eq!(
        split_unit_suffix("aircraft_V_indicated_kn"),
        ("aircraft_V_indicated".to_string(), "kn".to_string())
    );
    assert_eq!(
        split_unit_suffix("aircraft_Ma_mach"),
        ("aircraft_Ma".to_string(), "mach".to_string())
    );
    assert_eq!(split_unit_suffix("rate"), ("rate".to_string(), String::new()));
    assert_eq!(split_unit_suffix("s"), ("s".to_string(), String::new()));
}

#[test]
fn format_unit_maps_suffixes() {
    assert_eq!(format_unit("deg_s"), "°/s");
    assert_eq!(format_unit("deg"), "°");
    assert_eq!(format_unit("m_s2"), "m/s²");
    assert_eq!(format_unit("percent"), "%");
    assert_eq!(format_unit("kn"), "kt");
    assert_eq!(format_unit(""), "");
    assert_eq!(format_unit("furlong"), "");
}

#[test]
fn parse_header_name_of_dotted_headers() {
    assert_eq!(
        parse_header_name("base.aircraft_V_indicated_kn"),
        ("Aircraft V Indicated".to_string(), "kt".to_string())
    );
    assert_eq!(
        parse_header_name("base.aircraft_qk_deg_s"),
        ("Aircraft Qk Deg".to_string(), "s".to_string())
    );
    assert_eq!(
        parse_header_name("a.b.simulation_rate"),
        ("Simulation Rate".to_string(), String::new())
    );
    assert_eq!(
        parse_header_name("altitude_ft"),
        ("Altitude".to_string(), "ft".to_string())
    );
    assert_eq!(parse_header_name("trailing."), (String::new(), String::new()));
}

#[test]
fn infer_group_cases() {
    assert_eq!(infer_group("base.aircraft_position_latitude_deg"), "Position");
    assert_eq!(infer_group("base.aircraft_Theta_deg"), "Attitude");
    assert_eq!(infer_group("base.aircraft_Phi_deg"), "Attitude");
    assert_eq!(infer_group("base.aircraft_Psi_magnetic_deg"), "Attitude");
    assert_eq!(infer_group("base.simulation_time_s"), "Base");
    assert_eq!(infer_group("specific.fuel"), "Aircraft Systems");
    assert_eq!(infer_group("elac_1.bus.pitch"), "ELAC_1");
    assert_eq!(infer_group("straße.x"), "STRASSE");
    assert_eq!(infer_group("nodots"), "Other");
}

#[test]
fn make_param_copies_its_parts() {
    let p = make_param("k", "g", "n", "u");
    assert_eq!(p.key, "k");
    assert_eq!(p.group, "g");
    assert_eq!(p.display_name, "n");
    assert_eq!(p.unit, "u");
}

#[test]
fn registered_parameter_lists() {
    let a320 = build_a320_params();
    let a380 = build_a380_params();
    assert_eq!(a320.len(), 20);
    assert_eq!(a380.len(), 19);
    assert_eq!(a320[0].key, "base.simulation_time_s");
    assert_eq!(a320[0].display_name, "Time");
    assert_eq!(a320[19].key, "base.atmosphere_ambient_pressure_mbar");
    assert_eq!(a320[19].group, "Atmosphere");
    assert_eq!(a320[8].unit, "°/s");
    for i in 0..19 {
        assert_eq!(a320[i].key, a380[i].key);
        assert_eq!(a320[i].unit, a380[i].unit);
    }
}

#[test]
fn split_helpers() {
    let parts = split_chars(&chars_of("a..b"), '.');
    assert_eq!(parts, vec![vec!['a'], vec![], vec!['b']]);
    let words = split_whitespace_chars(&chars_of(" ab\u{2003}c  "));
    assert_eq!(words, vec![vec!['a', 'b'], vec!['c']]);
}
