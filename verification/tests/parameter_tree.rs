use fbw_systems::parameter_tree::ParameterTree;
use fbw_systems::parameters::make_param;

fn sample_params() -> Vec<fbw_systems::parameters::ParameterInfo> {
    vec![
        make_param("base.aircraft_Theta_deg", "Attitude", "Pitch", "°"),
        make_param("base.simulation_time_s", "Simulation", "Time", "s"),
        make_param("base.aircraft_Phi_deg", "Attitude", "Roll", "°"),
        make_param("base.aircraft_V_true_kn", "Flight Dynamics", "True Airspeed", "kt"),
        make_param("base.aircraft_ALT", "attitude", "Lower Group", ""),
    ]
}

#[test]
fn build_groups_by_name_in_order() {
    let tree = ParameterTree::build(&sample_params());
    let names: Vec<&str> = tree.groups.iter().map(|(n, _)| n.as_str()).collect();
    assert_eq!(names, vec!["Attitude", "Flight Dynamics", "Simulation", "attitude"]);
    let attitude: Vec<&str> = tree.groups[0].1.iter().map(|p| p.display_name.as_str()).collect();
    assert_eq!(attitude, vec!["Pitch", "Roll"]);
    assert_eq!(tree.groups[3].1.len(), 1);
}

#[test]
fn build_of_nothing_is_empty() {
    let tree = ParameterTree::build(&[]);
    assert!(tree.groups.is_empty());
}

#[test]
fn get_group_ignores_ascii_case_and_takes_the_first() {
    let tree = ParameterTree::build(&sample_params());
    let g = tree.get_group("ATTITUDE").unwrap();
    assert_eq!(g.len(), 2);
    assert_eq!(g[0].display_name, "Pitch");
    assert_eq!(tree.get_group("simulation").unwrap()[0].key, "base.simulation_time_s");
    assert!(tree.get_group("Position").is_none());
}

#[test]
fn filtered_matches_display_names() {
    let tree = ParameterTree::build(&sample_params());
    let f = tree.filtered("Roll");
    assert_eq!(f.len(), 1);
    assert_eq!(f[0].0, "Attitude");
    assert_eq!(f[0].1.len(), 1);
    assert_eq!(f[0].1[0].display_name, "Roll");

    // The match is on the display name as written: not on the key, not ignoring case.
    assert!(tree.filtered("ROLL").is_empty());
    assert!(tree.filtered("V_true").is_empty());
    let speed = tree.filtered("Air");
    assert_eq!(speed.len(), 1);
    assert_eq!(speed[0].0, "Flight Dynamics");

    assert!(tree.filtered("zzz").is_empty());
}

#[test]
fn empty_query_keeps_the_whole_tree() {
    let tree = ParameterTree::build(&sample_params());
    let all = tree.filtered("");
    assert_eq!(all.len(), tree.groups.len());
    for ((name, refs), (g, params)) in all.iter().zip(tree.groups.iter()) {
        assert_eq!(name, g);
        assert_eq!(refs.len(), params.len());
    }
}
