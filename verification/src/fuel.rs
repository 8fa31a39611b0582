//! A380 fuel system: tanks, pumps and valves, the transfer galleries, the fuel control
//! application and the load alleviation transfer logic.
//!
//! Fuel masses and altitudes are doubles in the simulation; here they are carried as
//! their IEEE-754 bit patterns (masses in pounds, altitudes in metres) and only compared,
//! see `float_bits`. Remaining flight times are whole nanoseconds.
use vstd::prelude::*;

use crate::float_bits::{f64_lt, f64_max_spec, lt, max};

verus! {

/// The fuel tanks of the A380.
#[derive(Clone, Copy, PartialEq, Eq, Structural, Debug)]
pub enum A380FuelTankType {
    FeedOne,
    FeedTwo,
    FeedThree,
    FeedFour,
    LeftInner,
    LeftMid,
    LeftOuter,
    RightInner,
    RightMid,
    RightOuter,
    Trim,
}

/// The fuel pumps of the A380 (the outer tanks have one pump each).
#[derive(Clone, Copy, PartialEq, Eq, Structural, Debug)]
pub enum A380FuelPump {
    Feed1Main,
    Feed1Stby,
    Feed2Main,
    Feed2Stby,
    Feed3Main,
    Feed3Stby,
    Feed4Main,
    Feed4Stby,
    LeftInnerFwd,
    LeftInnerAft,
    LeftMidFwd,
    LeftMidAft,
    LeftOuter,
    RightInnerFwd,
    RightInnerAft,
    RightMidFwd,
    RightMidAft,
    RightOuter,
    TrimLeft,
    TrimRight,
}

/// The transfer inlet valves of the A380 fuel tanks.
#[derive(Clone, Copy, PartialEq, Eq, Structural, Debug)]
pub enum A380FuelValve {
    FeedTank1ForwardTransferValve,
    FeedTank1AftTransferValve,
    FeedTank2ForwardTransferValve,
    FeedTank2AftTransferValve,
    FeedTank3ForwardTransferValve,
    FeedTank3AftTransferValve,
    FeedTank4ForwardTransferValve,
    FeedTank4AftTransferValve,
    LeftInnerForwardTransferValve,
    LeftInnerAftTransferValve,
    LeftMidForwardTransferValve,
    LeftMidAftTransferValve,
    LeftOuterForwardTransferValve,
    LeftOuterAftTransferValve,
    RightInnerForwardTransferValve,
    RightInnerAftTransferValve,
    RightMidForwardTransferValve,
    RightMidAftTransferValve,
    RightOuterForwardTransferValve,
    RightOuterAftTransferValve,
    TrimTankInletValve1,
    TrimTankInletValve2,
}

pub open spec fn tank_index(x: A380FuelTankType) -> int {
    match x {
        A380FuelTankType::FeedOne => 0,
        A380FuelTankType::FeedTwo => 1,
        A380FuelTankType::FeedThree => 2,
        A380FuelTankType::FeedFour => 3,
        A380FuelTankType::LeftInner => 4,
        A380FuelTankType::LeftMid => 5,
        A380FuelTankType::LeftOuter => 6,
        A380FuelTankType::RightInner => 7,
        A380FuelTankType::RightMid => 8,
        A380FuelTankType::RightOuter => 9,
        A380FuelTankType::Trim => 10,
    }
}

pub fn tank_into_usize(x: A380FuelTankType) -> (r: usize)
    ensures
        r == tank_index(x),
{
    match x {
        A380FuelTankType::FeedOne => 0,
        A380FuelTankType::FeedTwo => 1,
        A380FuelTankType::FeedThree => 2,
        A380FuelTankType::FeedFour => 3,
        A380FuelTankType::LeftInner => 4,
        A380FuelTankType::LeftMid => 5,
        A380FuelTankType::LeftOuter => 6,
        A380FuelTankType::RightInner => 7,
        A380FuelTankType::RightMid => 8,
        A380FuelTankType::RightOuter => 9,
        A380FuelTankType::Trim => 10,
    }
}

pub open spec fn pump_index(x: A380FuelPump) -> int {
    match x {
        A380FuelPump::Feed1Main => 0,
        A380FuelPump::Feed1Stby => 1,
        A380FuelPump::Feed2Main => 2,
        A380FuelPump::Feed2Stby => 3,
        A380FuelPump::Feed3Main => 4,
        A380FuelPump::Feed3Stby => 5,
        A380FuelPump::Feed4Main => 6,
        A380FuelPump::Feed4Stby => 7,
        A380FuelPump::LeftInnerFwd => 8,
        A380FuelPump::LeftInnerAft => 9,
        A380FuelPump::LeftMidFwd => 10,
        A380FuelPump::LeftMidAft => 11,
        A380FuelPump::LeftOuter => 12,
        A380FuelPump::RightInnerFwd => 13,
        A380FuelPump::RightInnerAft => 14,
        A380FuelPump::RightMidFwd => 15,
        A380FuelPump::RightMidAft => 16,
        A380FuelPump::RightOuter => 17,
        A380FuelPump::TrimLeft => 18,
        A380FuelPump::TrimRight => 19,
    }
}

pub fn pump_into_usize(x: A380FuelPump) -> (r: usize)
    ensures
        r == pump_index(x),
{
    match x {
        A380FuelPump::Feed1Main => 0,
        A380FuelPump::Feed1Stby => 1,
        A380FuelPump::Feed2Main => 2,
        A380FuelPump::Feed2Stby => 3,
        A380FuelPump::Feed3Main => 4,
        A380FuelPump::Feed3Stby => 5,
        A380FuelPump::Feed4Main => 6,
        A380FuelPump::Feed4Stby => 7,
        A380FuelPump::LeftInnerFwd => 8,
        A380FuelPump::LeftInnerAft => 9,
        A380FuelPump::LeftMidFwd => 10,
        A380FuelPump::LeftMidAft => 11,
        A380FuelPump::LeftOuter => 12,
        A380FuelPump::RightInnerFwd => 13,
        A380FuelPump::RightInnerAft => 14,
        A380FuelPump::RightMidFwd => 15,
        A380FuelPump::RightMidAft => 16,
        A380FuelPump::RightOuter => 17,
        A380FuelPump::TrimLeft => 18,
        A380FuelPump::TrimRight => 19,
    }
}

pub open spec fn valve_index(x: A380FuelValve) -> int {
    match x {
        A380FuelValve::FeedTank1ForwardTransferValve => 0,
        A380FuelValve::FeedTank1AftTransferValve => 1,
        A380FuelValve::FeedTank2ForwardTransferValve => 2,
        A380FuelValve::FeedTank2AftTransferValve => 3,
        A380FuelValve::FeedTank3ForwardTransferValve => 4,
        A380FuelValve::FeedTank3AftTransferValve => 5,
        A380FuelValve::FeedTank4ForwardTransferValve => 6,
        A380FuelValve::FeedTank4AftTransferValve => 7,
        A380FuelValve::LeftInnerForwardTransferValve => 8,
        A380FuelValve::LeftInnerAftTransferValve => 9,
        A380FuelValve::LeftMidForwardTransferValve => 10,
        A380FuelValve::LeftMidAftTransferValve => 11,
        A380FuelValve::LeftOuterForwardTransferValve => 12,
        A380FuelValve::LeftOuterAftTransferValve => 13,
        A380FuelValve::RightInnerForwardTransferValve => 14,
        A380FuelValve::RightInnerAftTransferValve => 15,
        A380FuelValve::RightMidForwardTransferValve => 16,
        A380FuelValve::RightMidAftTransferValve => 17,
        A380FuelValve::RightOuterForwardTransferValve => 18,
        A380FuelValve::RightOuterAftTransferValve => 19,
        A380FuelValve::TrimTankInletValve1 => 20,
        A380FuelValve::TrimTankInletValve2 => 21,
    }
}

pub fn valve_into_usize(x: A380FuelValve) -> (r: usize)
    ensures
        r == valve_index(x),
{
    match x {
        A380FuelValve::FeedTank1ForwardTransferValve => 0,
        A380FuelValve::FeedTank1AftTransferValve => 1,
        A380FuelValve::FeedTank2ForwardTransferValve => 2,
        A380FuelValve::FeedTank2AftTransferValve => 3,
        A380FuelValve::FeedTank3ForwardTransferValve => 4,
        A380FuelValve::FeedTank3AftTransferValve => 5,
        A380FuelValve::FeedTank4ForwardTransferValve => 6,
        A380FuelValve::FeedTank4AftTransferValve => 7,
        A380FuelValve::LeftInnerForwardTransferValve => 8,
        A380FuelValve::LeftInnerAftTransferValve => 9,
        A380FuelValve::LeftMidForwardTransferValve => 10,
        A380FuelValve::LeftMidAftTransferValve => 11,
        A380FuelValve::LeftOuterForwardTransferValve => 12,
        A380FuelValve::LeftOuterAftTransferValve => 13,
        A380FuelValve::RightInnerForwardTransferValve => 14,
        A380FuelValve::RightInnerAftTransferValve => 15,
        A380FuelValve::RightMidForwardTransferValve => 16,
        A380FuelValve::RightMidAftTransferValve => 17,
        A380FuelValve::RightOuterForwardTransferValve => 18,
        A380FuelValve::RightOuterAftTransferValve => 19,
        A380FuelValve::TrimTankInletValve1 => 20,
        A380FuelValve::TrimTankInletValve2 => 21,
    }
}

/// The two pumps of a tank (the outer tanks name their single pump twice).
pub open spec fn tank_pumps_spec(x: A380FuelTankType) -> (A380FuelPump, A380FuelPump) {
    match x {
        A380FuelTankType::FeedOne => (A380FuelPump::Feed1Main, A380FuelPump::Feed1Stby),
        A380FuelTankType::FeedTwo => (A380FuelPump::Feed2Main, A380FuelPump::Feed2Stby),
        A380FuelTankType::FeedThree => (A380FuelPump::Feed3Main, A380FuelPump::Feed3Stby),
        A380FuelTankType::FeedFour => (A380FuelPump::Feed4Main, A380FuelPump::Feed4Stby),
        A380FuelTankType::LeftInner => (A380FuelPump::LeftInnerFwd, A380FuelPump::LeftInnerAft),
        A380FuelTankType::LeftMid => (A380FuelPump::LeftMidFwd, A380FuelPump::LeftMidAft),
        A380FuelTankType::LeftOuter => (A380FuelPump::LeftOuter, A380FuelPump::LeftOuter),
        A380FuelTankType::RightInner => (A380FuelPump::RightInnerFwd, A380FuelPump::RightInnerAft),
        A380FuelTankType::RightMid => (A380FuelPump::RightMidFwd, A380FuelPump::RightMidAft),
        A380FuelTankType::RightOuter => (A380FuelPump::RightOuter, A380FuelPump::RightOuter),
        A380FuelTankType::Trim => (A380FuelPump::TrimLeft, A380FuelPump::TrimRight),
    }
}

/// The two pumps of a tank (the outer tanks name their single pump twice).
pub fn tank_pumps(x: A380FuelTankType) -> (r: (A380FuelPump, A380FuelPump))
    ensures
        r == tank_pumps_spec(x),
{
    match x {
        A380FuelTankType::FeedOne => (A380FuelPump::Feed1Main, A380FuelPump::Feed1Stby),
        A380FuelTankType::FeedTwo => (A380FuelPump::Feed2Main, A380FuelPump::Feed2Stby),
        A380FuelTankType::FeedThree => (A380FuelPump::Feed3Main, A380FuelPump::Feed3Stby),
        A380FuelTankType::FeedFour => (A380FuelPump::Feed4Main, A380FuelPump::Feed4Stby),
        A380FuelTankType::LeftInner => (A380FuelPump::LeftInnerFwd, A380FuelPump::LeftInnerAft),
        A380FuelTankType::LeftMid => (A380FuelPump::LeftMidFwd, A380FuelPump::LeftMidAft),
        A380FuelTankType::LeftOuter => (A380FuelPump::LeftOuter, A380FuelPump::LeftOuter),
        A380FuelTankType::RightInner => (A380FuelPump::RightInnerFwd, A380FuelPump::RightInnerAft),
        A380FuelTankType::RightMid => (A380FuelPump::RightMidFwd, A380FuelPump::RightMidAft),
        A380FuelTankType::RightOuter => (A380FuelPump::RightOuter, A380FuelPump::RightOuter),
        A380FuelTankType::Trim => (A380FuelPump::TrimLeft, A380FuelPump::TrimRight),
    }
}

/// The tank a pump draws from.
pub open spec fn pump_tank_spec(x: A380FuelPump) -> A380FuelTankType {
    match x {
        A380FuelPump::Feed1Main => A380FuelTankType::FeedOne,
        A380FuelPump::Feed1Stby => A380FuelTankType::FeedOne,
        A380FuelPump::Feed2Main => A380FuelTankType::FeedTwo,
        A380FuelPump::Feed2Stby => A380FuelTankType::FeedTwo,
        A380FuelPump::Feed3Main => A380FuelTankType::FeedThree,
        A380FuelPump::Feed3Stby => A380FuelTankType::FeedThree,
        A380FuelPump::Feed4Main => A380FuelTankType::FeedFour,
        A380FuelPump::Feed4Stby => A380FuelTankType::FeedFour,
        A380FuelPump::LeftInnerFwd => A380FuelTankType::LeftInner,
        A380FuelPump::LeftInnerAft => A380FuelTankType::LeftInner,
        A380FuelPump::LeftMidFwd => A380FuelTankType::LeftMid,
        A380FuelPump::LeftMidAft => A380FuelTankType::LeftMid,
        A380FuelPump::LeftOuter => A380FuelTankType::LeftOuter,
        A380FuelPump::RightInnerFwd => A380FuelTankType::RightInner,
        A380FuelPump::RightInnerAft => A380FuelTankType::RightInner,
        A380FuelPump::RightMidFwd => A380FuelTankType::RightMid,
        A380FuelPump::RightMidAft => A380FuelTankType::RightMid,
        A380FuelPump::RightOuter => A380FuelTankType::RightOuter,
        A380FuelPump::TrimLeft => A380FuelTankType::Trim,
        A380FuelPump::TrimRight => A380FuelTankType::Trim,
    }
}

/// The tank a pump draws from.
pub fn pump_tank(x: A380FuelPump) -> (r: A380FuelTankType)
    ensures
        r == pump_tank_spec(x),
{
    match x {
        A380FuelPump::Feed1Main => A380FuelTankType::FeedOne,
        A380FuelPump::Feed1Stby => A380FuelTankType::FeedOne,
        A380FuelPump::Feed2Main => A380FuelTankType::FeedTwo,
        A380FuelPump::Feed2Stby => A380FuelTankType::FeedTwo,
        A380FuelPump::Feed3Main => A380FuelTankType::FeedThree,
        A380FuelPump::Feed3Stby => A380FuelTankType::FeedThree,
        A380FuelPump::Feed4Main => A380FuelTankType::FeedFour,
        A380FuelPump::Feed4Stby => A380FuelTankType::FeedFour,
        A380FuelPump::LeftInnerFwd => A380FuelTankType::LeftInner,
        A380FuelPump::LeftInnerAft => A380FuelTankType::LeftInner,
        A380FuelPump::LeftMidFwd => A380FuelTankType::LeftMid,
        A380FuelPump::LeftMidAft => A380FuelTankType::LeftMid,
        A380FuelPump::LeftOuter => A380FuelTankType::LeftOuter,
        A380FuelPump::RightInnerFwd => A380FuelTankType::RightInner,
        A380FuelPump::RightInnerAft => A380FuelTankType::RightInner,
        A380FuelPump::RightMidFwd => A380FuelTankType::RightMid,
        A380FuelPump::RightMidAft => A380FuelTankType::RightMid,
        A380FuelPump::RightOuter => A380FuelTankType::RightOuter,
        A380FuelPump::TrimLeft => A380FuelTankType::Trim,
        A380FuelPump::TrimRight => A380FuelTankType::Trim,
    }
}

/// The forward and aft transfer inlet valves of a tank (for the trim tank, its two inlet valves).
pub open spec fn tank_inlet_valves_spec(x: A380FuelTankType) -> (A380FuelValve, A380FuelValve) {
    match x {
        A380FuelTankType::FeedOne => (A380FuelValve::FeedTank1ForwardTransferValve, A380FuelValve::FeedTank1AftTransferValve),
        A380FuelTankType::FeedTwo => (A380FuelValve::FeedTank2ForwardTransferValve, A380FuelValve::FeedTank2AftTransferValve),
        A380FuelTankType::FeedThree => (A380FuelValve::FeedTank3ForwardTransferValve, A380FuelValve::FeedTank3AftTransferValve),
        A380FuelTankType::FeedFour => (A380FuelValve::FeedTank4ForwardTransferValve, A380FuelValve::FeedTank4AftTransferValve),
        A380FuelTankType::LeftInner => (A380FuelValve::LeftInnerForwardTransferValve, A380FuelValve::LeftInnerAftTransferValve),
        A380FuelTankType::LeftMid => (A380FuelValve::LeftMidForwardTransferValve, A380FuelValve::LeftMidAftTransferValve),
        A380FuelTankType::LeftOuter => (A380FuelValve::LeftOuterForwardTransferValve, A380FuelValve::LeftOuterAftTransferValve),
        A380FuelTankType::RightInner => (A380FuelValve::RightInnerForwardTransferValve, A380FuelValve::RightInnerAftTransferValve),
        A380FuelTankType::RightMid => (A380FuelValve::RightMidForwardTransferValve, A380FuelValve::RightMidAftTransferValve),
        A380FuelTankType::RightOuter => (A380FuelValve::RightOuterForwardTransferValve, A380FuelValve::RightOuterAftTransferValve),
        A380FuelTankType::Trim => (A380FuelValve::TrimTankInletValve1, A380FuelValve::TrimTankInletValve2),
    }
}

/// The forward and aft transfer inlet valves of a tank (for the trim tank, its two inlet valves).
pub fn tank_inlet_valves(x: A380FuelTankType) -> (r: (A380FuelValve, A380FuelValve))
    ensures
        r == tank_inlet_valves_spec(x),
{
    match x {
        A380FuelTankType::FeedOne => (A380FuelValve::FeedTank1ForwardTransferValve, A380FuelValve::FeedTank1AftTransferValve),
        A380FuelTankType::FeedTwo => (A380FuelValve::FeedTank2ForwardTransferValve, A380FuelValve::FeedTank2AftTransferValve),
        A380FuelTankType::FeedThree => (A380FuelValve::FeedTank3ForwardTransferValve, A380FuelValve::FeedTank3AftTransferValve),
        A380FuelTankType::FeedFour => (A380FuelValve::FeedTank4ForwardTransferValve, A380FuelValve::FeedTank4AftTransferValve),
        A380FuelTankType::LeftInner => (A380FuelValve::LeftInnerForwardTransferValve, A380FuelValve::LeftInnerAftTransferValve),
        A380FuelTankType::LeftMid => (A380FuelValve::LeftMidForwardTransferValve, A380FuelValve::LeftMidAftTransferValve),
        A380FuelTankType::LeftOuter => (A380FuelValve::LeftOuterForwardTransferValve, A380FuelValve::LeftOuterAftTransferValve),
        A380FuelTankType::RightInner => (A380FuelValve::RightInnerForwardTransferValve, A380FuelValve::RightInnerAftTransferValve),
        A380FuelTankType::RightMid => (A380FuelValve::RightMidForwardTransferValve, A380FuelValve::RightMidAftTransferValve),
        A380FuelTankType::RightOuter => (A380FuelValve::RightOuterForwardTransferValve, A380FuelValve::RightOuterAftTransferValve),
        A380FuelTankType::Trim => (A380FuelValve::TrimTankInletValve1, A380FuelValve::TrimTankInletValve2),
    }
}

/// Number of tanks.
pub const TANK_COUNT: usize = 11;

/// Number of pumps.
pub const PUMP_COUNT: usize = 20;

/// Number of transfer inlet valves.
pub const VALVE_COUNT: usize = 22;

pub broadcast proof fn lemma_tank_index_bounds(t: A380FuelTankType)
    ensures
        0 <= #[trigger] tank_index(t) < TANK_COUNT,
{
}

pub broadcast proof fn lemma_pump_index_bounds(p: A380FuelPump)
    ensures
        0 <= #[trigger] pump_index(p) < PUMP_COUNT,
{
}

pub broadcast proof fn lemma_valve_index_bounds(v: A380FuelValve)
    ensures
        0 <= #[trigger] valve_index(v) < VALVE_COUNT,
{
}

/// Distinct tanks have distinct indices.
pub proof fn lemma_tank_index_injective(a: A380FuelTankType, b: A380FuelTankType)
    ensures
        tank_index(a) == tank_index(b) ==> a == b,
{
}

/// Distinct pumps have distinct indices.
pub proof fn lemma_pump_index_injective(a: A380FuelPump, b: A380FuelPump)
    ensures
        pump_index(a) == pump_index(b) ==> a == b,
{
}

/// Distinct valves have distinct indices.
pub proof fn lemma_valve_index_injective(a: A380FuelValve, b: A380FuelValve)
    ensures
        valve_index(a) == valve_index(b) ==> a == b,
{
}

/// The tank of index `i`.
pub open spec fn tank_at(i: int) -> A380FuelTankType {
    if i == 0 { A380FuelTankType::FeedOne }
    else if i == 1 { A380FuelTankType::FeedTwo }
    else if i == 2 { A380FuelTankType::FeedThree }
    else if i == 3 { A380FuelTankType::FeedFour }
    else if i == 4 { A380FuelTankType::LeftInner }
    else if i == 5 { A380FuelTankType::LeftMid }
    else if i == 6 { A380FuelTankType::LeftOuter }
    else if i == 7 { A380FuelTankType::RightInner }
    else if i == 8 { A380FuelTankType::RightMid }
    else if i == 9 { A380FuelTankType::RightOuter }
    else { A380FuelTankType::Trim }
}

pub fn tank_from_usize(i: usize) -> (t: A380FuelTankType)
    requires
        i < TANK_COUNT,
    ensures
        t == tank_at(i as int),
        tank_index(t) == i,
{
    if i == 0 { A380FuelTankType::FeedOne }
    else if i == 1 { A380FuelTankType::FeedTwo }
    else if i == 2 { A380FuelTankType::FeedThree }
    else if i == 3 { A380FuelTankType::FeedFour }
    else if i == 4 { A380FuelTankType::LeftInner }
    else if i == 5 { A380FuelTankType::LeftMid }
    else if i == 6 { A380FuelTankType::LeftOuter }
    else if i == 7 { A380FuelTankType::RightInner }
    else if i == 8 { A380FuelTankType::RightMid }
    else if i == 9 { A380FuelTankType::RightOuter }
    else { A380FuelTankType::Trim }
}

/// Each pump draws from the tank its name states: the feed pumps from their feed tank,
/// the forward and aft pumps of a wing tank from that tank on that side, the outer pumps
/// from the outer tanks, and the two trim pumps from the trim tank.
pub proof fn lemma_pumps_draw_from_named_tanks()
    ensures
        pump_tank_spec(A380FuelPump::Feed1Main) == A380FuelTankType::FeedOne,
        pump_tank_spec(A380FuelPump::Feed1Stby) == A380FuelTankType::FeedOne,
        pump_tank_spec(A380FuelPump::Feed2Main) == A380FuelTankType::FeedTwo,
        pump_tank_spec(A380FuelPump::Feed2Stby) == A380FuelTankType::FeedTwo,
        pump_tank_spec(A380FuelPump::Feed3Main) == A380FuelTankType::FeedThree,
        pump_tank_spec(A380FuelPump::Feed3Stby) == A380FuelTankType::FeedThree,
        pump_tank_spec(A380FuelPump::Feed4Main) == A380FuelTankType::FeedFour,
        pump_tank_spec(A380FuelPump::Feed4Stby) == A380FuelTankType::FeedFour,
        pump_tank_spec(A380FuelPump::LeftInnerFwd) == A380FuelTankType::LeftInner,
        pump_tank_spec(A380FuelPump::LeftInnerAft) == A380FuelTankType::LeftInner,
        pump_tank_spec(A380FuelPump::LeftMidFwd) == A380FuelTankType::LeftMid,
        pump_tank_spec(A380FuelPump::LeftMidAft) == A380FuelTankType::LeftMid,
        pump_tank_spec(A380FuelPump::LeftOuter) == A380FuelTankType::LeftOuter,
        pump_tank_spec(A380FuelPump::RightInnerFwd) == A380FuelTankType::RightInner,
        pump_tank_spec(A380FuelPump::RightInnerAft) == A380FuelTankType::RightInner,
        pump_tank_spec(A380FuelPump::RightMidFwd) == A380FuelTankType::RightMid,
        pump_tank_spec(A380FuelPump::RightMidAft) == A380FuelTankType::RightMid,
        pump_tank_spec(A380FuelPump::RightOuter) == A380FuelTankType::RightOuter,
        pump_tank_spec(A380FuelPump::TrimLeft) == A380FuelTankType::Trim,
        pump_tank_spec(A380FuelPump::TrimRight) == A380FuelTankType::Trim,
{
}

/// The pumps listed for each tank are that tank's own main and standby (feed tanks) or
/// forward and aft (wing tanks) pumps; an outer tank lists its single pump twice and the
/// trim tank its left and right pumps.
pub proof fn lemma_tank_pump_pairs()
    ensures
        tank_pumps_spec(A380FuelTankType::FeedOne) == (A380FuelPump::Feed1Main, A380FuelPump::Feed1Stby),
        tank_pumps_spec(A380FuelTankType::FeedTwo) == (A380FuelPump::Feed2Main, A380FuelPump::Feed2Stby),
        tank_pumps_spec(A380FuelTankType::FeedThree) == (A380FuelPump::Feed3Main, A380FuelPump::Feed3Stby),
        tank_pumps_spec(A380FuelTankType::FeedFour) == (A380FuelPump::Feed4Main, A380FuelPump::Feed4Stby),
        tank_pumps_spec(A380FuelTankType::LeftInner) == (A380FuelPump::LeftInnerFwd, A380FuelPump::LeftInnerAft),
        tank_pumps_spec(A380FuelTankType::LeftMid) == (A380FuelPump::LeftMidFwd, A380FuelPump::LeftMidAft),
        tank_pumps_spec(A380FuelTankType::LeftOuter) == (A380FuelPump::LeftOuter, A380FuelPump::LeftOuter),
        tank_pumps_spec(A380FuelTankType::RightInner) == (A380FuelPump::RightInnerFwd, A380FuelPump::RightInnerAft),
        tank_pumps_spec(A380FuelTankType::RightMid) == (A380FuelPump::RightMidFwd, A380FuelPump::RightMidAft),
        tank_pumps_spec(A380FuelTankType::RightOuter) == (A380FuelPump::RightOuter, A380FuelPump::RightOuter),
        tank_pumps_spec(A380FuelTankType::Trim) == (A380FuelPump::TrimLeft, A380FuelPump::TrimRight),
{
}

/// Both pumps listed for a tank draw from that tank.
pub proof fn lemma_tank_pumps_draw_from_tank(t: A380FuelTankType)
    ensures
        pump_tank_spec(tank_pumps_spec(t).0) == t,
        pump_tank_spec(tank_pumps_spec(t).1) == t,
{
}

/// Every pump is one of the pumps listed for the tank it draws from.
pub proof fn lemma_pump_listed_for_its_tank(p: A380FuelPump)
    ensures
        tank_pumps_spec(pump_tank_spec(p)).0 == p || tank_pumps_spec(pump_tank_spec(p)).1 == p,
{
}

/// No inlet valve belongs to two tanks, and each tank has two different inlet valves.
pub proof fn lemma_inlet_valves_distinct(a: A380FuelTankType, b: A380FuelTankType)
    ensures
        tank_inlet_valves_spec(a).0 != tank_inlet_valves_spec(a).1,
        a != b ==> {
            let (x0, x1) = tank_inlet_valves_spec(a);
            let (y0, y1) = tank_inlet_valves_spec(b);
            x0 != y0 && x0 != y1 && x1 != y0 && x1 != y1
        },
{
}

/// The four feed tanks.
pub open spec fn feed_tanks() -> Seq<A380FuelTankType> {
    seq![
        A380FuelTankType::FeedOne,
        A380FuelTankType::FeedTwo,
        A380FuelTankType::FeedThree,
        A380FuelTankType::FeedFour,
    ]
}

/// The inner tanks, left then right.
pub open spec fn inner_tanks() -> Seq<A380FuelTankType> {
    seq![A380FuelTankType::LeftInner, A380FuelTankType::RightInner]
}

/// The mid tanks, left then right.
pub open spec fn mid_tanks() -> Seq<A380FuelTankType> {
    seq![A380FuelTankType::LeftMid, A380FuelTankType::RightMid]
}

/// The outer tanks, left then right.
pub open spec fn outer_tanks() -> Seq<A380FuelTankType> {
    seq![A380FuelTankType::LeftOuter, A380FuelTankType::RightOuter]
}

pub fn feed_tank_list() -> (r: Vec<A380FuelTankType>)
    ensures
        r@ == feed_tanks(),
{
    let r = vec![
        A380FuelTankType::FeedOne,
        A380FuelTankType::FeedTwo,
        A380FuelTankType::FeedThree,
        A380FuelTankType::FeedFour,
    ];
    assert(r@ =~= feed_tanks());
    r
}

pub fn inner_tank_list() -> (r: Vec<A380FuelTankType>)
    ensures
        r@ == inner_tanks(),
{
    let r = vec![A380FuelTankType::LeftInner, A380FuelTankType::RightInner];
    assert(r@ =~= inner_tanks());
    r
}

pub fn mid_tank_list() -> (r: Vec<A380FuelTankType>)
    ensures
        r@ == mid_tanks(),
{
    let r = vec![A380FuelTankType::LeftMid, A380FuelTankType::RightMid];
    assert(r@ =~= mid_tanks());
    r
}

pub fn outer_tank_list() -> (r: Vec<A380FuelTankType>)
    ensures
        r@ == outer_tanks(),
{
    let r = vec![A380FuelTankType::LeftOuter, A380FuelTankType::RightOuter];
    assert(r@ =~= outer_tanks());
    r
}

} // verus!
