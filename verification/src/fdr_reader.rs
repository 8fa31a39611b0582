//! Flight data recordings: the binary recording format, the CSV column conventions, the
//! time index, and range queries over the recorded columns.
//!
//! A binary recording is a gzip stream. Decompressed, it starts with the 8-byte interface
//! version, followed by fixed-size records; every field this reader extracts is an 8-byte
//! double in native byte order at a fixed offset within the record. Recorded doubles are
//! kept as their bit patterns (see `float_bits`).
use vstd::prelude::*;

use vstd::endian::{endianness, Endian};

use crate::float_bits::{f64_lt, lt};
use crate::parameters::{
    a320_param_table, a380_param_table, build_a320_params, build_a380_params, infer_group,
    infer_group_spec, param_views, parse_header_name, parse_header_name_spec, ParameterInfo,
    ParameterSpec,
};
use crate::text::{chars_contain, chars_of, contains_seq};

verus! {

broadcast use vstd::string::group_string_axioms;

/// Aircraft type as inferred from the recording's interface version.
#[derive(Clone, Copy, PartialEq, Eq, Structural, Debug)]
pub enum AircraftType {
    A320,
    A380,
}

/// Interface versions above this belong to A380 recordings; the others to A320 recordings.
pub const A380_MIN_VERSION: u64 = 3_800_000;

/// Size in bytes of one A320 record.
pub const A320_RECORD_SIZE: usize = 1848;

/// Size in bytes of one A380 record.
pub const A380_RECORD_SIZE: usize = 2176;

/// The aircraft a recording with this interface version comes from.
pub open spec fn aircraft_for_version(version: u64) -> AircraftType {
    if version > A380_MIN_VERSION {
        AircraftType::A380
    } else {
        AircraftType::A320
    }
}

/// The size of one record of the aircraft's recordings.
pub open spec fn record_size_spec(aircraft: AircraftType) -> usize {
    match aircraft {
        AircraftType::A320 => A320_RECORD_SIZE,
        AircraftType::A380 => A380_RECORD_SIZE,
    }
}

pub fn aircraft_type_for_version(version: u64) -> (r: AircraftType)
    ensures
        r == aircraft_for_version(version),
{
    if version > A380_MIN_VERSION {
        AircraftType::A380
    } else {
        AircraftType::A320
    }
}

pub fn record_size(aircraft: AircraftType) -> (r: usize)
    ensures
        r == record_size_spec(aircraft),
{
    match aircraft {
        AircraftType::A320 => A320_RECORD_SIZE,
        AircraftType::A380 => A380_RECORD_SIZE,
    }
}

/// The little-endian value of eight bytes.
pub open spec fn le_u64(b: Seq<u8>) -> u64 {
    ((b[0] as u64) | (b[1] as u64) << 8u64 | (b[2] as u64) << 16u64 | (b[3] as u64) << 24u64 | (
    b[4] as u64) << 32u64 | (b[5] as u64) << 40u64 | (b[6] as u64) << 48u64 | (b[7] as u64)
        << 56u64)
}

/// The value of eight bytes in the byte order of the machine running the code.
pub open spec fn ne_u64(b: Seq<u8>) -> u64 {
    match endianness() {
        Endian::Little => le_u64(b),
        Endian::Big => le_u64(b.reverse()),
    }
}

/// `bytemuck::pod_read_unaligned::<u64>`: the eight bytes read as a `u64` in native byte order.
#[verifier::external_body]
fn pod_read_u64(bytes: &[u8]) -> (r: u64)
    requires
        bytes.len() == 8,
    ensures
        r == ne_u64(bytes@),
{
    bytemuck::pod_read_unaligned::<u64>(bytes)
}

/// `u64::from_ne_bytes`: the eight bytes as a `u64` in native byte order.
#[verifier::external_body]
fn u64_from_ne_bytes(bytes: [u8; 8]) -> (r: u64)
    ensures
        r == ne_u64(bytes@),
{
    u64::from_ne_bytes(bytes)
}

/// The decompressed content of a gzip stream (its first member), or `None` when it is
/// not a valid gzip stream.
pub uninterp spec fn gunzip_spec(data: Seq<u8>) -> Option<Seq<u8>>;

#[verifier::external_type_specification]
#[verifier::external_body]
pub struct ExIoError(std::io::Error);

/// Decompresses a gzip stream with `flate2::bufread::GzDecoder` and `read_to_end`.
#[verifier::external_body]
fn gunzip(data: &[u8]) -> (r: Result<Vec<u8>, std::io::Error>)
    ensures
        match r {
            Ok(v) => gunzip_spec(data@) == Some(v@),
            Err(_) => gunzip_spec(data@) is None,
        },
{
    let mut decoder = flate2::bufread::GzDecoder::new(data);
    let mut out: Vec<u8> = Vec::new();
    match std::io::Read::read_to_end(&mut decoder, &mut out) {
        Ok(_) => Ok(out),
        Err(e) => Err(e),
    }
}

/// Why a recording could not be read.
pub enum FdrError {
    /// The data is not a valid gzip stream.
    Decompress(std::io::Error),
    /// The decompressed stream ends before the 8-byte interface version.
    MissingVersion,
    /// The stream is too small to contain even one record.
    TooSmall,
    /// A CSV recording has no column whose header contains "simulation_time_s".
    NoTimeColumn,
    /// A CSV recording is not valid CSV text.
    Csv(csv::Error),
}

/// Which fields of a record are extracted: (column key, byte offset) pairs.
pub open spec fn base_column_layout() -> Seq<(Seq<char>, int)> {
    seq![
        ("base.simulation_time_s"@, 0),
        ("base.simulation_delta_time_s"@, 8),
        ("base.simulation_rate"@, 16),
        ("base.aircraft_position_latitude_deg"@, 56),
        ("base.aircraft_position_longitude_deg"@, 64),
        ("base.aircraft_Theta_deg"@, 80),
        ("base.aircraft_Phi_deg"@, 88),
        ("base.aircraft_Psi_magnetic_deg"@, 96),
        ("base.aircraft_qk_deg_s"@, 120),
        ("base.aircraft_pk_deg_s"@, 128),
        ("base.aircraft_rk_deg_s"@, 136),
        ("base.aircraft_V_indicated_kn"@, 144),
        ("base.aircraft_V_true_kn"@, 152),
        ("base.aircraft_V_ground_kn"@, 160),
        ("base.aircraft_Ma_mach"@, 168),
        ("base.aircraft_alpha_deg"@, 176),
        ("base.aircraft_beta_deg"@, 184),
        ("base.aircraft_H_pressure_ft"@, 200),
        ("base.aircraft_nz_g"@, 232),
    ]
}

/// The fields extracted from an aircraft's records.
pub open spec fn column_layout(aircraft: AircraftType) -> Seq<(Seq<char>, int)> {
    match aircraft {
        AircraftType::A320 => base_column_layout().push(
            ("base.atmosphere_ambient_pressure_mbar"@, 296),
        ),
        AircraftType::A380 => base_column_layout(),
    }
}

/// The parameters registered for an aircraft's recordings.
pub open spec fn param_table(aircraft: AircraftType) -> Seq<ParameterSpec> {
    match aircraft {
        AircraftType::A320 => a320_param_table(),
        AircraftType::A380 => a380_param_table(),
    }
}

/// Every registered parameter of a binary recording is an extracted column and every
/// extracted column is a registered parameter, in the same order.
pub proof fn lemma_parameters_match_columns(aircraft: AircraftType)
    ensures
        param_table(aircraft).map_values(|p: ParameterSpec| p.key) == column_layout(
            aircraft,
        ).map_values(|c: (Seq<char>, int)| c.0),
{
    assert(param_table(aircraft).map_values(|p: ParameterSpec| p.key) =~= column_layout(
        aircraft,
    ).map_values(|c: (Seq<char>, int)| c.0));
}

/// Every extracted field lies within one record: its 8 bytes start at or after the
/// record's start, at most at the layout's largest offset, and end at or before the
/// record's end. The A320 layout has 20 fields, the A380
/// layout 19, and both start with the record time at offset 0.
pub proof fn lemma_fields_within_record(aircraft: AircraftType)
    ensures
        column_layout(AircraftType::A320).len() == 20,
        column_layout(AircraftType::A380).len() == 19,
        column_layout(aircraft)[0] == ("base.simulation_time_s"@, 0int),
        forall|i: int|
            0 <= i < column_layout(aircraft).len() ==> 0 <= (#[trigger] column_layout(aircraft)[i]).1
                && column_layout(aircraft)[i].1 <= max_field_offset(aircraft)
                && column_layout(aircraft)[i].1 + 8 <= record_size_spec(aircraft),
{
    assert forall|i: int|
        0 <= i < column_layout(aircraft).len() implies 0 <= (#[trigger] column_layout(aircraft)[i]).1
            && column_layout(aircraft)[i].1 <= max_field_offset(aircraft)
            && column_layout(aircraft)[i].1 + 8 <= record_size_spec(aircraft) by {
        if i < 19 {
            assert(column_layout(aircraft)[i] == base_column_layout()[i]);
        }
    }
}

/// The position of a key in the layouts, told apart by its length and its 15th
/// character (-1 for other text).
pub open spec fn layout_position(k: Seq<char>) -> int {
    if k.len() == 22 && k[14] == 'n' {
        0
    } else if k.len() == 28 && k[14] == 'n' {
        1
    } else if k.len() == 20 && k[14] == 'n' {
        2
    } else if k.len() == 35 && k[14] == 'p' {
        3
    } else if k.len() == 36 && k[14] == 'p' {
        4
    } else if k.len() == 23 && k[14] == 'T' {
        5
    } else if k.len() == 21 && k[14] == 'P' {
        6
    } else if k.len() == 30 && k[14] == 'P' {
        7
    } else if k.len() == 22 && k[14] == 'q' {
        8
    } else if k.len() == 22 && k[14] == 'p' {
        9
    } else if k.len() == 22 && k[14] == 'r' {
        10
    } else if k.len() == 28 && k[14] == 'V' {
        11
    } else if k.len() == 23 && k[14] == 'V' {
        12
    } else if k.len() == 25 && k[14] == 'V' {
        13
    } else if k.len() == 21 && k[14] == 'M' {
        14
    } else if k.len() == 23 && k[14] == 'a' {
        15
    } else if k.len() == 22 && k[14] == 'b' {
        16
    } else if k.len() == 27 && k[14] == 'H' {
        17
    } else if k.len() == 18 && k[14] == 'n' {
        18
    } else if k.len() == 37 && k[14] == 'e' {
        19
    } else {
        -1
    }
}

/// Each key of a layout sits at its own position, so no two extracted fields share a key:
/// an aircraft's columns are keyed one to one by its registered parameters.
#[verifier::rlimit(50)]
pub proof fn lemma_layout_keys_distinct(aircraft: AircraftType)
    ensures
        forall|i: int|
            0 <= i < column_layout(aircraft).len() ==> layout_position(#[trigger] column_layout(aircraft)[i].0) == i,
        column_layout(aircraft).map_values(|c: (Seq<char>, int)| c.0).no_duplicates(),
{
    assert forall|i: int|
        0 <= i < column_layout(aircraft).len() implies layout_position(#[trigger] column_layout(aircraft)[i].0) == i by {
        if i == 0 {
            reveal_strlit("base.simulation_time_s");
        } else if i == 1 {
            reveal_strlit("base.simulation_delta_time_s");
        } else if i == 2 {
            reveal_strlit("base.simulation_rate");
        } else if i == 3 {
            reveal_strlit("base.aircraft_position_latitude_deg");
        } else if i == 4 {
            reveal_strlit("base.aircraft_position_longitude_deg");
        } else if i == 5 {
            reveal_strlit("base.aircraft_Theta_deg");
        } else if i == 6 {
            reveal_strlit("base.aircraft_Phi_deg");
        } else if i == 7 {
            reveal_strlit("base.aircraft_Psi_magnetic_deg");
        } else if i == 8 {
            reveal_strlit("base.aircraft_qk_deg_s");
        } else if i == 9 {
            reveal_strlit("base.aircraft_pk_deg_s");
        } else if i == 10 {
            reveal_strlit("base.aircraft_rk_deg_s");
        } else if i == 11 {
            reveal_strlit("base.aircraft_V_indicated_kn");
        } else if i == 12 {
            reveal_strlit("base.aircraft_V_true_kn");
        } else if i == 13 {
            reveal_strlit("base.aircraft_V_ground_kn");
        } else if i == 14 {
            reveal_strlit("base.aircraft_Ma_mach");
        } else if i == 15 {
            reveal_strlit("base.aircraft_alpha_deg");
        } else if i == 16 {
            reveal_strlit("base.aircraft_beta_deg");
        } else if i == 17 {
            reveal_strlit("base.aircraft_H_pressure_ft");
        } else if i == 18 {
            reveal_strlit("base.aircraft_nz_g");
        } else if i == 19 {
            reveal_strlit("base.atmosphere_ambient_pressure_mbar");
        }
    }
    let keys = column_layout(aircraft).map_values(|c: (Seq<char>, int)| c.0);
    assert forall|i: int, j: int| 0 <= i < keys.len() && 0 <= j < keys.len() && i != j implies keys[i] != keys[j] by {
        assert(layout_position(column_layout(aircraft)[i].0) == i);
        assert(layout_position(column_layout(aircraft)[j].0) == j);
    }
}

/// The byte offset of each recorded base-data field within a record, as the recorder's
/// struct lays them out (one 8-byte double each); -1 for a key that names no such field.
pub open spec fn base_data_field_offset(key: Seq<char>) -> int {
    if key == "base.simulation_time_s"@ {
        0
    } else if key == "base.simulation_delta_time_s"@ {
        8
    } else if key == "base.simulation_rate"@ {
        16
    } else if key == "base.aircraft_position_latitude_deg"@ {
        56
    } else if key == "base.aircraft_position_longitude_deg"@ {
        64
    } else if key == "base.aircraft_Theta_deg"@ {
        80
    } else if key == "base.aircraft_Phi_deg"@ {
        88
    } else if key == "base.aircraft_Psi_magnetic_deg"@ {
        96
    } else if key == "base.aircraft_qk_deg_s"@ {
        120
    } else if key == "base.aircraft_pk_deg_s"@ {
        128
    } else if key == "base.aircraft_rk_deg_s"@ {
        136
    } else if key == "base.aircraft_V_indicated_kn"@ {
        144
    } else if key == "base.aircraft_V_true_kn"@ {
        152
    } else if key == "base.aircraft_V_ground_kn"@ {
        160
    } else if key == "base.aircraft_Ma_mach"@ {
        168
    } else if key == "base.aircraft_alpha_deg"@ {
        176
    } else if key == "base.aircraft_beta_deg"@ {
        184
    } else if key == "base.aircraft_H_pressure_ft"@ {
        200
    } else if key == "base.aircraft_nz_g"@ {
        232
    } else if key == "base.atmosphere_ambient_pressure_mbar"@ {
        296
    } else {
        -1
    }
}

/// Each extracted column reads the field that its key names: the column keyed by a
/// base-data field holds, record by record, the word at that field's offset in the
/// recorder's struct (pitch `Theta` at 80, roll `Phi` at 88, heading `Psi` at 96, ...),
/// for both aircraft and any data.
#[verifier::rlimit(50)]
pub proof fn lemma_columns_read_named_fields(aircraft: AircraftType, data: Seq<u8>, record_size: int, total: int)
    ensures
        forall|k: int|
            0 <= k < column_layout(aircraft).len() ==> (#[trigger] column_layout(aircraft)[k]).1
                == base_data_field_offset(column_layout(aircraft)[k].0),
        forall|k: int|
            0 <= k < column_layout(aircraft).len() ==> #[trigger] layout_columns(aircraft, data, record_size, total)[k]
                == (column_layout(aircraft)[k].0, column_words(
                data,
                record_size,
                total,
                base_data_field_offset(column_layout(aircraft)[k].0),
            )),
{
    lemma_layout_keys_distinct(AircraftType::A320);
    let full = column_layout(AircraftType::A320);
    assert forall|k: int|
        0 <= k < column_layout(aircraft).len() implies (#[trigger] column_layout(aircraft)[k]).1
            == base_data_field_offset(column_layout(aircraft)[k].0) by {
        assert(column_layout(aircraft)[k] == full[k]);
        assert(layout_position(full[k].0) == k);
        assert forall|j: int| 0 <= j < 20 && j != k implies full[k].0 != #[trigger] full[j].0 by {
            assert(layout_position(full[j].0) == j);
        }
        assert(full[0].0 == "base.simulation_time_s"@);
        assert(full[1].0 == "base.simulation_delta_time_s"@);
        assert(full[2].0 == "base.simulation_rate"@);
        assert(full[3].0 == "base.aircraft_position_latitude_deg"@);
        assert(full[4].0 == "base.aircraft_position_longitude_deg"@);
        assert(full[5].0 == "base.aircraft_Theta_deg"@);
        assert(full[6].0 == "base.aircraft_Phi_deg"@);
        assert(full[7].0 == "base.aircraft_Psi_magnetic_deg"@);
        assert(full[8].0 == "base.aircraft_qk_deg_s"@);
        assert(full[9].0 == "base.aircraft_pk_deg_s"@);
        assert(full[10].0 == "base.aircraft_rk_deg_s"@);
        assert(full[11].0 == "base.aircraft_V_indicated_kn"@);
        assert(full[12].0 == "base.aircraft_V_true_kn"@);
        assert(full[13].0 == "base.aircraft_V_ground_kn"@);
        assert(full[14].0 == "base.aircraft_Ma_mach"@);
        assert(full[15].0 == "base.aircraft_alpha_deg"@);
        assert(full[16].0 == "base.aircraft_beta_deg"@);
        assert(full[17].0 == "base.aircraft_H_pressure_ft"@);
        assert(full[18].0 == "base.aircraft_nz_g"@);
        assert(full[19].0 == "base.atmosphere_ambient_pressure_mbar"@);
    }
}

/// When `data` holds exactly `total` whole records of a size that fits every field,
/// reading an aircraft's columns cannot overflow, gives one column per registered
/// parameter in the same order, each with one value per record, and every value is the
/// field's 8 bytes of that record read in native byte order (no field falls back to 0).
/// The record time is the field at offset 0.
pub proof fn lemma_columns_exact(aircraft: AircraftType, data: Seq<u8>, record_size: int, total: int)
    requires
        record_size >= max_field_offset(aircraft) + 8,
        total >= 0,
        data.len() == record_size * total,
        data.len() <= usize::MAX,
    ensures
        layout_fits(aircraft, record_size, total),
        param_table(aircraft).map_values(|p: ParameterSpec| p.key) == layout_columns(
            aircraft,
            data,
            record_size,
            total,
        ).map_values(|c: (Seq<char>, Seq<u64>)| c.0),
        column_layout(aircraft)[0].1 == 0,
        forall|k: int|
            0 <= k < column_layout(aircraft).len() ==> (#[trigger] layout_columns(aircraft, data, record_size, total)[k]).1.len()
                == total,
        forall|k: int, i: int|
            0 <= k < column_layout(aircraft).len() && 0 <= i < total ==> {
                let base = i * record_size + column_layout(aircraft)[k].1;
                #[trigger] layout_columns(aircraft, data, record_size, total)[k].1[i] == ne_u64(data.subrange(base, base + 8))
            },
{
    lemma_fields_within_record(aircraft);
    lemma_parameters_match_columns(aircraft);
    assert(param_table(aircraft).map_values(|p: ParameterSpec| p.key) =~= layout_columns(
        aircraft,
        data,
        record_size,
        total,
    ).map_values(|c: (Seq<char>, Seq<u64>)| c.0));
    assert(record_size * total == total * record_size) by (nonlinear_arith);
    if total > 0 {
        assert((total - 1) * record_size + max_field_offset(aircraft) + 8 <= total * record_size) by (nonlinear_arith)
            requires
                total >= 1,
                record_size >= max_field_offset(aircraft) + 8,
        ;
    }
    assert forall|k: int, i: int|
        0 <= k < column_layout(aircraft).len() && 0 <= i < total implies {
            let base = i * record_size + column_layout(aircraft)[k].1;
            #[trigger] layout_columns(aircraft, data, record_size, total)[k].1[i] == ne_u64(data.subrange(base, base + 8))
        } by {
        let off = column_layout(aircraft)[k].1;
        assert(0 <= off <= max_field_offset(aircraft));
        assert(0 <= i * record_size && i * record_size + off + 8 <= total * record_size) by (nonlinear_arith)
            requires
                0 <= i < total,
                0 <= off,
                off + 8 <= record_size,
        ;
        assert(layout_columns(aircraft, data, record_size, total)[k].1 == column_words(data, record_size, total, off));
        assert(column_words(data, record_size, total, off)[i] == field_word(data, record_size, i, off));
    }
}

/// Field `offset` of record `i` (records of `record_size` bytes): the 8 bytes there, read
/// in native byte order, or 0 when they do not lie within `data`.
pub open spec fn field_word(data: Seq<u8>, record_size: int, i: int, offset: int) -> u64 {
    let base = i * record_size + offset;
    if base + 8 <= data.len() {
        ne_u64(data.subrange(base, base + 8))
    } else {
        0u64
    }
}

/// One column: the field at `offset` of each of the `total` records.
pub open spec fn column_words(data: Seq<u8>, record_size: int, total: int, offset: int) -> Seq<u64> {
    Seq::new(total as nat, |i: int| field_word(data, record_size, i, offset))
}

/// The columns of an aircraft's layout read from `total` records of `record_size` bytes.
pub open spec fn layout_columns(aircraft: AircraftType, data: Seq<u8>, record_size: int, total: int) -> Seq<(Seq<char>, Seq<u64>)> {
    column_layout(aircraft).map_values(|c: (Seq<char>, int)| (c.0, column_words(data, record_size, total, c.1)))
}

/// The largest field offset of an aircraft's layout.
pub open spec fn max_field_offset(aircraft: AircraftType) -> int {
    match aircraft {
        AircraftType::A320 => 296,
        AircraftType::A380 => 232,
    }
}

/// Reading the fields of the last record does not overflow the address arithmetic.
pub open spec fn layout_fits(aircraft: AircraftType, record_size: int, total: int) -> bool {
    total == 0 || (total - 1) * record_size + max_field_offset(aircraft) + 8 <= usize::MAX
}

/// The abstract value of a parsed binary recording.
pub struct FdrRecordsSpec {
    pub aircraft: AircraftType,
    pub version: u64,
    pub total_records: int,
    pub times: Seq<u64>,
    pub columns: Seq<(Seq<char>, Seq<u64>)>,
}

/// What a decompressed binary recording contains, or `None` when it is too short for the
/// version or for one record. Bytes after the last whole record are ignored.
pub open spec fn parse_records_spec(stream: Seq<u8>) -> Option<FdrRecordsSpec> {
    if stream.len() < 8 {
        None
    } else {
        let version = ne_u64(stream.subrange(0, 8));
        let aircraft = aircraft_for_version(version);
        let rs = record_size_spec(aircraft) as int;
        let body = stream.subrange(8, stream.len() as int);
        if body.len() < rs {
            None
        } else {
            let total: int = body.len() as int / rs;
            let records = body.subrange(0, total * rs);
            Some(
                FdrRecordsSpec {
                    aircraft,
                    version,
                    total_records: total,
                    times: column_words(records, rs, total, 0),
                    columns: layout_columns(aircraft, records, rs, total),
                },
            )
        }
    }
}

/// A single data point: time and value as double bit patterns.
#[derive(Clone, Copy, PartialEq, Eq, Structural, Debug)]
pub struct DataPoint {
    pub time_s: u64,
    pub value: u64,
}

/// Metadata about an open recording; the start and end times are double bit patterns.
#[derive(Clone, Copy, PartialEq, Eq, Structural, Debug)]
pub struct FileMetadata {
    pub aircraft_type: Option<AircraftType>,
    pub interface_version: u64,
    pub total_records: usize,
    pub time_start_s: u64,
    pub time_end_s: u64,
}

/// The first time, or 0 when there is none.
pub open spec fn first_or_zero(times: Seq<u64>) -> u64 {
    if times.len() > 0 {
        times[0]
    } else {
        0u64
    }
}

/// The last time, or 0 when there is none.
pub open spec fn last_or_zero(times: Seq<u64>) -> u64 {
    if times.len() > 0 {
        times.last()
    } else {
        0u64
    }
}

/// The first index whose time does not sort before `time` (the partition point of
/// "earlier than `time`"), when the times are partitioned that way.
pub open spec fn partitioned_by(times: Seq<u64>, time: u64) -> bool {
    forall|i: int, j: int|
        0 <= i <= j < times.len() && f64_lt(#[trigger] times[j], time) ==> f64_lt(#[trigger] times[i], time)
}

/// `slice::partition_point` with the predicate "earlier than `time`": when the times are
/// partitioned by the predicate, the index of the first time not earlier than `time`
/// (the length when there is none). On times that are not partitioned, std documents the
/// result as unspecified, and nothing is stated of it.
#[verifier::external_body]
fn partition_point_before(times: &[u64], time: u64) -> (r: usize)
    ensures
        partitioned_by(times@, time) ==> r <= times.len() && (forall|i: int|
            0 <= i < r ==> f64_lt(#[trigger] times@[i], time)) && (forall|i: int|
            r <= i < times.len() ==> !f64_lt(#[trigger] times@[i], time)),
{
    times.partition_point(|t| lt(*t, time))
}

/// Index from record number to simulation time.
pub struct TimeIndex {
    times: Vec<u64>,
}

impl Clone for TimeIndex {
    fn clone(&self) -> (r: Self)
        ensures
            r@ == self@,
    {
        TimeIndex { times: self.times.clone() }
    }
}

impl View for TimeIndex {
    type V = Seq<u64>;

    closed spec fn view(&self) -> Seq<u64> {
        self.times@
    }
}

impl TimeIndex {
    /// The index of a recording with these record times.
    pub fn new(times: Vec<u64>) -> (r: Self)
        ensures
            r@ == times@,
    {
        TimeIndex { times }
    }

    /// An index without records.
    pub fn empty() -> (r: Self)
        ensures
            r@ == Seq::<u64>::empty(),
    {
        TimeIndex { times: Vec::new() }
    }

    /// Binary search for the first record at or after `time_s`. Exact when record times do
    /// not decrease; always within `0..=len`.
    pub fn find_index(&self, time_s: u64) -> (r: usize)
        ensures
            r <= self@.len(),
            partitioned_by(self@, time_s) ==> (forall|i: int|
                0 <= i < r ==> f64_lt(#[trigger] self@[i], time_s)) && (forall|i: int|
                r <= i < self@.len() ==> !f64_lt(#[trigger] self@[i], time_s)),
    {
        let p = partition_point_before(self.times.as_slice(), time_s);
        if p < self.times.len() {
            p
        } else {
            self.times.len()
        }
    }

    pub fn len(&self) -> (r: usize)
        ensures
            r == self@.len(),
    {
        self.times.len()
    }

    pub fn is_empty(&self) -> (r: bool)
        ensures
            r == (self@.len() == 0),
    {
        self.times.len() == 0
    }

    pub fn get_time(&self, index: usize) -> (r: Option<u64>)
        ensures
            r == (if index < self@.len() {
                Some(self@[index as int])
            } else {
                None
            }),
    {
        if index < self.times.len() {
            Some(self.times[index])
        } else {
            None
        }
    }

    /// The first and last record times, 0 standing in for a missing one.
    pub fn time_range(&self) -> (r: (u64, u64))
        ensures
            r == (first_or_zero(self@), last_or_zero(self@)),
    {
        if self.times.len() > 0 {
            (self.times[0], self.times[self.times.len() - 1])
        } else {
            (0u64, 0u64)
        }
    }
}

/// The abstract columns of a recording.
pub open spec fn columns_view(cols: Seq<(String, Vec<u64>)>) -> Seq<(Seq<char>, Seq<u64>)> {
    cols.map_values(|c: (String, Vec<u64>)| (c.0@, c.1@))
}

/// An open recording: metadata, time index, registered parameters, and one column of
/// values per registered key.
pub struct FdrFileState {
    pub metadata: FileMetadata,
    pub time_index: TimeIndex,
    pub parameters: Vec<ParameterInfo>,
    pub columns: Vec<(String, Vec<u64>)>,
}

/// The open recording holds exactly what the parsed stream contains.
pub open spec fn state_holds_records(state: FdrFileState, p: FdrRecordsSpec) -> bool {
    &&& state.metadata == (FileMetadata {
        aircraft_type: Some(p.aircraft),
        interface_version: p.version,
        total_records: p.total_records as usize,
        time_start_s: first_or_zero(p.times),
        time_end_s: last_or_zero(p.times),
    })
    &&& p.total_records == state.metadata.total_records
    &&& state.time_index@ == p.times
    &&& param_views(state.parameters@) == param_table(p.aircraft)
    &&& columns_view(state.columns@) == p.columns
}

/// The result of parsing a decompressed stream: the recording it contains, or the error
/// for a stream too short for the version (`MissingVersion`) or for one record
/// (`TooSmall`).
pub open spec fn parse_outcome(stream: Seq<u8>, r: Result<FdrFileState, FdrError>) -> bool {
    match r {
        Ok(state) => match parse_records_spec(stream) {
            Some(p) => state_holds_records(state, p),
            None => false,
        },
        Err(e) => parse_records_spec(stream) is None && (e is MissingVersion <==> stream.len() < 8)
            && (e is MissingVersion || e is TooSmall),
    }
}

fn read_word(body: &[u8], start: usize) -> (r: u64)
    requires
        start + 8 <= body.len(),
    ensures
        r == ne_u64(body@.subrange(start as int, start + 8)),
{
    let bytes: [u8; 8] = [
        body[start],
        body[start + 1],
        body[start + 2],
        body[start + 3],
        body[start + 4],
        body[start + 5],
        body[start + 6],
        body[start + 7],
    ];
    assert(bytes@ =~= body@.subrange(start as int, start + 8));
    u64_from_ne_bytes(bytes)
}

/// The fields of record `i` lie no further than those of the last record.
proof fn lemma_record_bounds(i: int, record_size: int, total: int)
    requires
        0 <= i < total,
        0 <= record_size,
    ensures
        0 <= i * record_size <= (total - 1) * record_size,
{
    assert(0 <= i * record_size <= (total - 1) * record_size) by (nonlinear_arith)
        requires
            0 <= i <= total - 1,
            0 <= record_size,
    ;
}

/// Extracts the field at `offset` from each of the `total` records.
fn extract_column(data: &[u8], record_size: usize, total: usize, offset: usize) -> (r: Vec<u64>)
    requires
        total == 0 || (total - 1) * record_size + offset + 8 <= usize::MAX,
    ensures
        r@ == column_words(data@, record_size as int, total as int, offset as int),
{
    let mut out: Vec<u64> = Vec::new();
    let mut i: usize = 0;
    while i < total
        invariant
            total == 0 || (total - 1) * record_size + offset + 8 <= usize::MAX,
            i <= total,
            out@ == column_words(data@, record_size as int, total as int, offset as int).take(i as int),
        decreases total - i,
    {
        proof {
            lemma_record_bounds(i as int, record_size as int, total as int);
        }
        let base: usize = i * record_size + offset;
        let word = if base <= data.len() && data.len() - base >= 8 {
            read_word(data, base)
        } else {
            0u64
        };
        out.push(word);
        i = i + 1;
        assert(out@ =~= column_words(data@, record_size as int, total as int, offset as int).take(i as int));
    }
    assert(column_words(data@, record_size as int, total as int, offset as int).take(total as int)
        =~= column_words(data@, record_size as int, total as int, offset as int));
    out
}

/// The registered parameters of an aircraft's recordings and their columns, read from
/// `total` records of `record_size` bytes at the start of `data`.
fn read_columns(data: &[u8], record_size: usize, total: usize, aircraft: AircraftType) -> (r: (
    Vec<ParameterInfo>,
    Vec<(String, Vec<u64>)>,
))
    requires
        layout_fits(aircraft, record_size as int, total as int),
    ensures
        param_views(r.0@) == param_table(aircraft),
        columns_view(r.1@) == layout_columns(aircraft, data@, record_size as int, total as int),
{
    let layout = column_offsets(aircraft);
    let mut columns: Vec<(String, Vec<u64>)> = Vec::new();
    let ghost spec_cols = layout_columns(aircraft, data@, record_size as int, total as int);
    proof {
        lemma_fields_within_record(aircraft);
    }
    let mut k: usize = 0;
    while k < layout.len()
        invariant
            layout_fits(aircraft, record_size as int, total as int),
            k <= layout.len(),
            layout@.map_values(|c: (&'static str, usize)| (c.0@, c.1 as int)) == column_layout(aircraft),
            forall|i: int|
                0 <= i < column_layout(aircraft).len() ==> 0 <= (#[trigger] column_layout(aircraft)[i]).1
                    && column_layout(aircraft)[i].1 <= max_field_offset(aircraft),
            spec_cols == layout_columns(aircraft, data@, record_size as int, total as int),
            columns_view(columns@) == spec_cols.take(k as int),
        decreases layout.len() - k,
    {
        let (key, offset) = layout[k];
        assert(column_layout(aircraft)[k as int] == (key@, offset as int));
        assert(offset <= max_field_offset(aircraft));
        let col = extract_column(data, record_size, total, offset);
        assert(spec_cols[k as int] == (key@, column_words(data@, record_size as int, total as int, offset as int)));
        let name = key.to_string();
        assert(name@ == key@);
        let ghost old_cols = columns_view(columns@);
        let ghost col_view = col@;
        columns.push((name, col));
        assert(columns_view(columns@) =~= old_cols.push((key@, col_view)));
        k = k + 1;
        assert(columns_view(columns@) =~= spec_cols.take(k as int));
    }
    assert(spec_cols.take(layout.len() as int) =~= spec_cols);
    let parameters = match aircraft {
        AircraftType::A320 => build_a320_params(),
        AircraftType::A380 => build_a380_params(),
    };
    (parameters, columns)
}

/// The registered A320 parameters and one column per parameter, read from `total_records`
/// records of `record_size` bytes at the start of `data`: column `k` holds, for each
/// record, the 8 bytes at the parameter's field offset read in native byte order, or 0
/// when they lie beyond `data`.
pub fn read_a320_columns(data: &[u8], record_size: usize, total_records: usize) -> (r: (
    Vec<ParameterInfo>,
    Vec<(String, Vec<u64>)>,
))
    requires
        layout_fits(AircraftType::A320, record_size as int, total_records as int),
    ensures
        param_views(r.0@) == a320_param_table(),
        columns_view(r.1@) == layout_columns(AircraftType::A320, data@, record_size as int, total_records as int),
{
    read_columns(data, record_size, total_records, AircraftType::A320)
}

/// The registered A380 parameters and one column per parameter (see
/// `read_a320_columns`).
pub fn read_a380_columns(data: &[u8], record_size: usize, total_records: usize) -> (r: (
    Vec<ParameterInfo>,
    Vec<(String, Vec<u64>)>,
))
    requires
        layout_fits(AircraftType::A380, record_size as int, total_records as int),
    ensures
        param_views(r.0@) == a380_param_table(),
        columns_view(r.1@) == layout_columns(AircraftType::A380, data@, record_size as int, total_records as int),
{
    read_columns(data, record_size, total_records, AircraftType::A380)
}

/// The columns extracted from each record.
fn column_offsets(aircraft: AircraftType) -> (r: Vec<(&'static str, usize)>)
    ensures
        r@.map_values(|c: (&'static str, usize)| (c.0@, c.1 as int)) == column_layout(aircraft),
{
    let mut v: Vec<(&'static str, usize)> = Vec::new();
    v.push(("base.simulation_time_s", 0));
    v.push(("base.simulation_delta_time_s", 8));
    v.push(("base.simulation_rate", 16));
    v.push(("base.aircraft_position_latitude_deg", 56));
    v.push(("base.aircraft_position_longitude_deg", 64));
    v.push(("base.aircraft_Theta_deg", 80));
    v.push(("base.aircraft_Phi_deg", 88));
    v.push(("base.aircraft_Psi_magnetic_deg", 96));
    v.push(("base.aircraft_qk_deg_s", 120));
    v.push(("base.aircraft_pk_deg_s", 128));
    v.push(("base.aircraft_rk_deg_s", 136));
    v.push(("base.aircraft_V_indicated_kn", 144));
    v.push(("base.aircraft_V_true_kn", 152));
    v.push(("base.aircraft_V_ground_kn", 160));
    v.push(("base.aircraft_Ma_mach", 168));
    v.push(("base.aircraft_alpha_deg", 176));
    v.push(("base.aircraft_beta_deg", 184));
    v.push(("base.aircraft_H_pressure_ft", 200));
    v.push(("base.aircraft_nz_g", 232));
    match aircraft {
        AircraftType::A320 => {
            v.push(("base.atmosphere_ambient_pressure_mbar", 296));
        },
        AircraftType::A380 => {},
    }
    assert(v@.map_values(|c: (&'static str, usize)| (c.0@, c.1 as int)) =~= column_layout(aircraft));
    v
}

/// Parses a decompressed binary recording: reads the interface version, infers the
/// aircraft and record size, and extracts the record times and the registered columns.
pub fn parse_records(stream: &[u8]) -> (r: Result<FdrFileState, FdrError>)
    ensures
        parse_outcome(stream@, r),
{
    if stream.len() < 8 {
        return Err(FdrError::MissingVersion);
    }
    let version = pod_read_u64(&stream[0..8]);
    let aircraft = aircraft_type_for_version(version);
    let rs = record_size(aircraft);
    let body = &stream[8..stream.len()];
    if body.len() < rs {
        return Err(FdrError::TooSmall);
    }
    let total: usize = body.len() / rs;
    proof {
        assert(total * rs <= body.len() && total >= 1) by (nonlinear_arith)
            requires
                total == body.len() / rs,
                body.len() >= rs,
                rs > 0,
        ;
    }
    let limit: usize = total * rs;
    proof {
        assert((total - 1) * rs + 304 <= total * rs) by (nonlinear_arith)
            requires
                total >= 1,
                rs >= 1848,
        ;
        lemma_fields_within_record(aircraft);
    }
    let records = &body[0..limit];
    assert(records@ == stream@.subrange(8, stream@.len() as int).subrange(0, total * rs));
    let times = extract_column(records, rs, total, 0);
    let (parameters, columns) = read_columns(records, rs, total, aircraft);
    let time_index = TimeIndex::new(times);
    let (time_start, time_end) = time_index.time_range();
    Ok(FdrFileState {
        metadata: FileMetadata {
            aircraft_type: Some(aircraft),
            interface_version: version,
            total_records: total,
            time_start_s: time_start,
            time_end_s: time_end,
        },
        time_index,
        parameters,
        columns,
    })
}

/// Decompresses and parses a binary (gzip-compressed) recording.
pub fn open_fdr_bytes(compressed: &[u8]) -> (r: Result<FdrFileState, FdrError>)
    ensures
        gunzip_spec(compressed@) is None <==> r matches Err(FdrError::Decompress(_)),
        gunzip_spec(compressed@) matches Some(stream) ==> parse_outcome(stream, r),
{
    match gunzip(compressed) {
        Ok(stream) => parse_records(stream.as_slice()),
        Err(e) => Err(FdrError::Decompress(e)),
    }
}

} // verus!
