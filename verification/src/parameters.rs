//! Recorded parameters: their descriptions, the fixed parameter lists of the
//! binary recordings, and the naming rules that derive a description from a
//! CSV column header.
use vstd::prelude::*;

use crate::text::{
    append_chars, char_to_uppercase, char_uppercase_of, chars_end_with, chars_equal, chars_of,
    chars_start_with, ends_with, join_chars, join_spec, lemma_split_nonempty, replace_char,
    replace_char_spec, split_chars, split_spec, split_whitespace_chars, starts_with,
    string_from_chars, to_uppercase, uppercase_of, views, words_spec,
};

verus! {

broadcast use vstd::string::group_string_axioms;

/// The abstract value of a [`ParameterInfo`].
pub struct ParameterSpec {
    pub display_name: Seq<char>,
    pub key: Seq<char>,
    pub group: Seq<char>,
    pub unit: Seq<char>,
}

/// A single named parameter field from a flight data recording.
pub struct ParameterInfo {
    /// Human-readable name (Title Case, prefix-stripped).
    pub display_name: String,
    /// Raw field path used internally (e.g. "base.simulation_time_s").
    pub key: String,
    /// Subsystem group for the parameter browser tree.
    pub group: String,
    /// Unit string derived from suffix conventions.
    pub unit: String,
}

impl View for ParameterInfo {
    type V = ParameterSpec;

    open spec fn view(&self) -> ParameterSpec {
        ParameterSpec {
            display_name: self.display_name@,
            key: self.key@,
            group: self.group@,
            unit: self.unit@,
        }
    }
}

impl Clone for ParameterInfo {
    fn clone(&self) -> (r: Self)
        ensures
            r@ == self@,
    {
        ParameterInfo {
            display_name: self.display_name.clone(),
            key: self.key.clone(),
            group: self.group.clone(),
            unit: self.unit.clone(),
        }
    }
}

/// The abstract values of a sequence of parameters.
pub open spec fn param_views(v: Seq<ParameterInfo>) -> Seq<ParameterSpec> {
    v.map_values(|p: ParameterInfo| p@)
}

/// A parameter description from its four parts.
pub open spec fn param_spec(
    key: Seq<char>,
    group: Seq<char>,
    name: Seq<char>,
    unit: Seq<char>,
) -> ParameterSpec {
    ParameterSpec { display_name: name, key, group, unit }
}

/// Builds a parameter description.
pub fn make_param(key: &str, group: &str, name: &str, unit: &str) -> (r: ParameterInfo)
    ensures
        r@ == param_spec(key@, group@, name@, unit@),
{
    ParameterInfo {
        key: key.to_string(),
        group: group.to_string(),
        display_name: name.to_string(),
        unit: unit.to_string(),
    }
}


/// The unit-suffix table: a field-name suffix and the unit it denotes.
pub open spec fn unit_table() -> Seq<(Seq<char>, Seq<char>)> {
    seq![
        ("deg_s"@, "°/s"@),
        ("deg"@, "°"@),
        ("kn"@, "kt"@),
        ("ft"@, "ft"@),
        ("m_s2"@, "m/s²"@),
        ("psi"@, "psi"@),
        ("mach"@, "Mach"@),
        ("percent"@, "%"@),
        ("g"@, "g"@),
        ("mbar"@, "mbar"@),
        ("s"@, "s"@),
    ]
}

/// Number of entries of the unit-suffix table.
pub const UNIT_TABLE_LEN: usize = 11;

/// Entry `i` of the unit-suffix table.
fn unit_entry(i: usize) -> (r: (&'static str, &'static str))
    requires
        i < UNIT_TABLE_LEN,
    ensures
        r.0@ == unit_table()[i as int].0,
        r.1@ == unit_table()[i as int].1,
{
    match i {
        0 => ("deg_s", "°/s"),
        1 => ("deg", "°"),
        2 => ("kn", "kt"),
        3 => ("ft", "ft"),
        4 => ("m_s2", "m/s²"),
        5 => ("psi", "psi"),
        6 => ("mach", "Mach"),
        7 => ("percent", "%"),
        8 => ("g", "g"),
        9 => ("mbar", "mbar"),
        _ => ("s", "s"),
    }
}

/// `name` ends with an underscore followed by the suffix of table entry `i`.
pub open spec fn unit_suffix_matches(name: Seq<char>, i: int) -> bool {
    ends_with(name, seq!['_'] + unit_table()[i].0)
}

/// The largest index below `n` whose table suffix (after an underscore) ends `name`.
pub open spec fn last_unit_match(name: Seq<char>, n: int) -> Option<int>
    decreases n,
{
    if n <= 0 {
        None
    } else if unit_suffix_matches(name, n - 1) {
        Some(n - 1)
    } else {
        last_unit_match(name, n - 1)
    }
}

/// The table is searched from its last entry to its first; the first entry whose
/// suffix ends the name is split off together with its underscore.
pub open spec fn split_unit_suffix_spec(name: Seq<char>) -> (Seq<char>, Seq<char>) {
    match last_unit_match(name, unit_table().len() as int) {
        Some(i) => (name.take(name.len() - unit_table()[i].0.len() - 1), unit_table()[i].0),
        None => (name, Seq::<char>::empty()),
    }
}

/// The unit of the first table entry whose suffix is exactly `suffix`, searching from index `i`.
pub open spec fn unit_lookup(suffix: Seq<char>, i: int) -> Seq<char>
    decreases unit_table().len() - i,
{
    if i < 0 || i >= unit_table().len() {
        Seq::<char>::empty()
    } else if unit_table()[i].0 == suffix {
        unit_table()[i].1
    } else {
        unit_lookup(suffix, i + 1)
    }
}

/// The display unit of a field-name suffix; empty when the suffix is not in the table.
pub open spec fn format_unit_spec(suffix: Seq<char>) -> Seq<char> {
    unit_lookup(suffix, 0)
}

/// Splits a recognised unit suffix (with its underscore) off a field name.
/// Returns the remaining name and the suffix; the suffix is empty when none matches.
pub fn split_unit_suffix(name: &str) -> (r: (String, String))
    ensures
        (r.0@, r.1@) == split_unit_suffix_spec(name@),
{
    let chars = chars_of(name);
    let mut i: usize = UNIT_TABLE_LEN;
    while i > 0
        invariant
            i <= UNIT_TABLE_LEN,
            chars@ == name@,
            last_unit_match(name@, UNIT_TABLE_LEN as int) == last_unit_match(name@, i as int),
        decreases i,
    {
        let (suffix, _unit) = unit_entry(i - 1);
        let suffix_chars = chars_of(suffix);
        let mut pattern: Vec<char> = Vec::new();
        pattern.push('_');
        append_chars(&mut pattern, &suffix_chars);
        assert(pattern@ =~= seq!['_'] + unit_table()[i - 1].0);
        if chars_end_with(&chars, &pattern) {
            let cut: usize = chars.len() - suffix_chars.len() - 1;
            let mut head: Vec<char> = Vec::new();
            let mut k: usize = 0;
            while k < cut
                invariant
                    k <= cut,
                    cut <= chars.len(),
                    head@ == chars@.take(k as int),
                decreases cut - k,
            {
                head.push(chars[k]);
                k = k + 1;
                assert(head@ =~= chars@.take(k as int));
            }
            return (string_from_chars(&head), suffix.to_string());
        }
        i = i - 1;
    }
    (name.to_string(), String::new())
}

/// The display unit for a field-name suffix (empty when unknown).
pub fn format_unit(suffix: &str) -> (r: String)
    ensures
        r@ == format_unit_spec(suffix@),
{
    let chars = chars_of(suffix);
    let mut i: usize = 0;
    while i < UNIT_TABLE_LEN
        invariant
            i <= UNIT_TABLE_LEN,
            chars@ == suffix@,
            unit_lookup(suffix@, 0) == unit_lookup(suffix@, i as int),
        decreases UNIT_TABLE_LEN - i,
    {
        let (s, u) = unit_entry(i);
        let s_chars = chars_of(s);
        if chars_equal(&s_chars, &chars) {
            return u.to_string();
        }
        i = i + 1;
    }
    String::new()
}

/// A word with its first character upper-cased; empty words stay empty.
pub open spec fn capitalize_spec(w: Seq<char>) -> Seq<char> {
    if w.len() == 0 {
        Seq::<char>::empty()
    } else {
        char_uppercase_of(w[0]) + w.drop_first()
    }
}

/// Underscores become spaces, the text is split at white space, each word gets an
/// upper-cased first character, and the words are joined with single spaces.
pub open spec fn title_case_spec(name: Seq<char>) -> Seq<char> {
    join_spec(
        words_spec(replace_char_spec(name, '_', ' ')).map_values(|w: Seq<char>| capitalize_spec(w)),
        seq![' '],
    )
}

/// Replaces the first character of a non-empty `word` by `first_upper`, the upper-case
/// form of that character.
pub fn capitalize_with(first_upper: &[char], word: &[char]) -> (r: Vec<char>)
    requires
        word.len() > 0,
    ensures
        r@ == first_upper@ + word@.drop_first(),
{
    let mut r: Vec<char> = Vec::new();
    append_chars(&mut r, first_upper);
    let mut k: usize = 1;
    let ghost before = r@;
    while k < word.len()
        invariant
            1 <= k <= word.len(),
            r@ == before + word@.subrange(1, k as int),
        decreases word.len() - k,
    {
        r.push(word[k]);
        k = k + 1;
        assert(r@ =~= before + word@.subrange(1, k as int));
    }
    assert(word@.subrange(1, word.len() as int) =~= word@.drop_first());
    r
}

fn capitalize(word: &[char]) -> (r: Vec<char>)
    ensures
        r@ == capitalize_spec(word@),
{
    if word.len() == 0 {
        return Vec::new();
    }
    let up = char_to_uppercase(word[0]);
    capitalize_with(&up, word)
}

/// Converts a snake_case field name to Title Case words.
pub fn to_title_case(name: &str) -> (r: String)
    ensures
        r@ == title_case_spec(name@),
{
    let chars = chars_of(name);
    let replaced = replace_char(&chars, '_', ' ');
    let words = split_whitespace_chars(&replaced);
    let mut caps: Vec<Vec<char>> = Vec::new();
    let mut i: usize = 0;
    while i < words.len()
        invariant
            i <= words.len(),
            views(caps@) == views(words@).take(i as int).map_values(
                |w: Seq<char>| capitalize_spec(w),
            ),
        decreases words.len() - i,
    {
        let c = capitalize(&words[i]);
        let ghost prev_caps = views(caps@);
        assert(views(words@)[i as int] == words@[i as int]@);
        caps.push(c);
        assert(views(caps@) =~= prev_caps.push(capitalize_spec(words@[i as int]@)));
        i = i + 1;
        assert(views(caps@) =~= views(words@).take(i as int).map_values(
            |w: Seq<char>| capitalize_spec(w),
        ));
    }
    assert(views(words@).take(words.len() as int) =~= views(words@));
    let sep: Vec<char> = vec![' '];
    let joined = join_chars(&caps, &sep);
    assert(sep@ =~= seq![' ']);
    string_from_chars(&joined)
}


/// The part of a header after its last '.' (the whole header when it has none).
pub open spec fn header_leaf(header: Seq<char>) -> Seq<char> {
    split_spec(header, '.').last()
}

/// The display name and unit derived from a column header.
pub open spec fn parse_header_name_spec(header: Seq<char>) -> (Seq<char>, Seq<char>) {
    let (clean, suffix) = split_unit_suffix_spec(header_leaf(header));
    (title_case_spec(clean), format_unit_spec(suffix))
}

/// Parses a header like "base.aircraft_V_indicated_kn" into (display name, unit):
/// the last dotted component loses its unit suffix and is title-cased, and the
/// suffix is mapped to its display unit.
pub fn parse_header_name(header: &str) -> (r: (String, String))
    ensures
        (r.0@, r.1@) == parse_header_name_spec(header@),
{
    let chars = chars_of(header);
    let parts = split_chars(&chars, '.');
    proof {
        lemma_split_nonempty(header@, '.');
    }
    let leaf_chars = &parts[parts.len() - 1];
    assert(leaf_chars@ == header_leaf(header@)) by {
        assert(views(parts@)[parts@.len() - 1] == parts@[parts@.len() - 1]@);
    }
    let leaf = string_from_chars(leaf_chars);
    let (clean_name, unit_suffix) = split_unit_suffix(leaf.as_str());
    let display = to_title_case(clean_name.as_str());
    (display, format_unit(unit_suffix.as_str()))
}

/// The browser group a column header belongs to.
pub open spec fn infer_group_spec(header: Seq<char>) -> Seq<char> {
    let parts = split_spec(header, '.');
    if parts.len() >= 2 {
        if parts[0] == "base"@ {
            if starts_with(parts[1], "aircraft_position"@) {
                "Position"@
            } else if starts_with(parts[1], "aircraft_Theta"@) || starts_with(
                parts[1],
                "aircraft_Phi"@,
            ) || starts_with(parts[1], "aircraft_Psi"@) {
                "Attitude"@
            } else {
                "Base"@
            }
        } else if parts[0] == "specific"@ {
            "Aircraft Systems"@
        } else {
            uppercase_of(parts[0])
        }
    } else {
        "Other"@
    }
}

/// Infers the subsystem group of a column header from its dotted prefix.
pub fn infer_group(header: &str) -> (r: String)
    ensures
        r@ == infer_group_spec(header@),
{
    let chars = chars_of(header);
    let parts = split_chars(&chars, '.');
    if parts.len() >= 2 {
        let first = &parts[0];
        let second = &parts[1];
        assert(views(parts@)[0] == first@);
        assert(views(parts@)[1] == second@);
        if chars_equal(first, &chars_of("base")) {
            if chars_start_with(second, &chars_of("aircraft_position")) {
                "Position".to_string()
            } else if chars_start_with(second, &chars_of("aircraft_Theta")) || chars_start_with(
                second,
                &chars_of("aircraft_Phi"),
            ) || chars_start_with(second, &chars_of("aircraft_Psi")) {
                "Attitude".to_string()
            } else {
                "Base".to_string()
            }
        } else if chars_equal(first, &chars_of("specific")) {
            "Aircraft Systems".to_string()
        } else {
            let other = string_from_chars(first);
            to_uppercase(other.as_str())
        }
    } else {
        "Other".to_string()
    }
}


/// The parameters recorded by both aircraft's base data block.
pub open spec fn base_param_table() -> Seq<ParameterSpec> {
    seq![
        param_spec("base.simulation_time_s"@, "Simulation"@, "Time"@, "s"@),
        param_spec("base.simulation_delta_time_s"@, "Simulation"@, "Delta Time"@, "s"@),
        param_spec("base.simulation_rate"@, "Simulation"@, "Sim Rate"@, ""@),
        param_spec("base.aircraft_position_latitude_deg"@, "Position"@, "Latitude"@, "°"@),
        param_spec("base.aircraft_position_longitude_deg"@, "Position"@, "Longitude"@, "°"@),
        param_spec("base.aircraft_Theta_deg"@, "Attitude"@, "Pitch"@, "°"@),
        param_spec("base.aircraft_Phi_deg"@, "Attitude"@, "Roll"@, "°"@),
        param_spec("base.aircraft_Psi_magnetic_deg"@, "Attitude"@, "Heading (Mag)"@, "°"@),
        param_spec("base.aircraft_qk_deg_s"@, "Attitude"@, "Pitch Rate"@, "°/s"@),
        param_spec("base.aircraft_pk_deg_s"@, "Attitude"@, "Roll Rate"@, "°/s"@),
        param_spec("base.aircraft_rk_deg_s"@, "Attitude"@, "Yaw Rate"@, "°/s"@),
        param_spec("base.aircraft_V_indicated_kn"@, "Flight Dynamics"@, "Indicated Airspeed"@, "kt"@),
        param_spec("base.aircraft_V_true_kn"@, "Flight Dynamics"@, "True Airspeed"@, "kt"@),
        param_spec("base.aircraft_V_ground_kn"@, "Flight Dynamics"@, "Ground Speed"@, "kt"@),
        param_spec("base.aircraft_Ma_mach"@, "Flight Dynamics"@, "Mach Number"@, "Mach"@),
        param_spec("base.aircraft_alpha_deg"@, "Flight Dynamics"@, "Angle of Attack"@, "°"@),
        param_spec("base.aircraft_beta_deg"@, "Flight Dynamics"@, "Sideslip Angle"@, "°"@),
        param_spec("base.aircraft_H_pressure_ft"@, "Flight Dynamics"@, "Pressure Altitude"@, "ft"@),
        param_spec("base.aircraft_nz_g"@, "Flight Dynamics"@, "Vertical Acceleration"@, "g"@),
    ]
}

/// The ambient pressure parameter, recorded by the A320 only.
pub open spec fn ambient_pressure_param() -> ParameterSpec {
param_spec("base.atmosphere_ambient_pressure_mbar"@, "Atmosphere"@, "Ambient Pressure"@, "mbar"@)
}

/// The registered A320 parameters.
pub open spec fn a320_param_table() -> Seq<ParameterSpec> {
    base_param_table().push(ambient_pressure_param())
}

/// The registered A380 parameters.
pub open spec fn a380_param_table() -> Seq<ParameterSpec> {
    base_param_table()
}

fn push_base_params(v: &mut Vec<ParameterInfo>)
    ensures
        param_views(final(v)@) == param_views(old(v)@) + base_param_table(),
{
    let ghost start = param_views(v@);
    v.push(make_param("base.simulation_time_s", "Simulation", "Time", "s"));
    v.push(make_param("base.simulation_delta_time_s", "Simulation", "Delta Time", "s"));
    v.push(make_param("base.simulation_rate", "Simulation", "Sim Rate", ""));
    v.push(make_param("base.aircraft_position_latitude_deg", "Position", "Latitude", "°"));
    v.push(make_param("base.aircraft_position_longitude_deg", "Position", "Longitude", "°"));
    v.push(make_param("base.aircraft_Theta_deg", "Attitude", "Pitch", "°"));
    v.push(make_param("base.aircraft_Phi_deg", "Attitude", "Roll", "°"));
    v.push(make_param("base.aircraft_Psi_magnetic_deg", "Attitude", "Heading (Mag)", "°"));
    v.push(make_param("base.aircraft_qk_deg_s", "Attitude", "Pitch Rate", "°/s"));
    v.push(make_param("base.aircraft_pk_deg_s", "Attitude", "Roll Rate", "°/s"));
    v.push(make_param("base.aircraft_rk_deg_s", "Attitude", "Yaw Rate", "°/s"));
    v.push(make_param("base.aircraft_V_indicated_kn", "Flight Dynamics", "Indicated Airspeed", "kt"));
    v.push(make_param("base.aircraft_V_true_kn", "Flight Dynamics", "True Airspeed", "kt"));
    v.push(make_param("base.aircraft_V_ground_kn", "Flight Dynamics", "Ground Speed", "kt"));
    v.push(make_param("base.aircraft_Ma_mach", "Flight Dynamics", "Mach Number", "Mach"));
    v.push(make_param("base.aircraft_alpha_deg", "Flight Dynamics", "Angle of Attack", "°"));
    v.push(make_param("base.aircraft_beta_deg", "Flight Dynamics", "Sideslip Angle", "°"));
    v.push(make_param("base.aircraft_H_pressure_ft", "Flight Dynamics", "Pressure Altitude", "ft"));
    v.push(make_param("base.aircraft_nz_g", "Flight Dynamics", "Vertical Acceleration", "g"));
    assert(param_views(v@) =~= start + base_param_table());
}

/// The registered parameters of an A320 recording.
pub fn build_a320_params() -> (r: Vec<ParameterInfo>)
    ensures
        param_views(r@) == a320_param_table(),
{
    let mut v: Vec<ParameterInfo> = Vec::new();
    push_base_params(&mut v);
    v.push(make_param("base.atmosphere_ambient_pressure_mbar", "Atmosphere", "Ambient Pressure", "mbar"));
    assert(param_views(v@) =~= a320_param_table());
    v
}

/// The registered parameters of an A380 recording.
pub fn build_a380_params() -> (r: Vec<ParameterInfo>)
    ensures
        param_views(r@) == a380_param_table(),
{
    let mut v: Vec<ParameterInfo> = Vec::new();
    push_base_params(&mut v);
    assert(param_views(v@) =~= a380_param_table());
    v
}

} // verus!
