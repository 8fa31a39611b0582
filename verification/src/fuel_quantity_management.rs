//! The A380 fuel quantity management system: the refuel panel, the command and monitor
//! modules, the data concentrators, and which command module acts on a refuel request.
//!
//! Fuel masses are kilograms carried as double bit patterns (see `float_bits`). Each unit
//! is told whether its electrical bus is powered.
use vstd::prelude::*;

use crate::float_bits::{f64_le, f64_lt, le, lt};
use crate::fuel::A380FuelTankType;

verus! {

/// The refuel panel's mode selector.
#[derive(Clone, Copy, PartialEq, Eq, Structural, Debug)]
pub enum ModeSelect {
    AutoRefuel,
    Off,
    ManualRefuel,
    Defuel,
    Transfer,
}

/// The desired total fuel entered for refuelling.
pub struct RefuelPanelInput {
    pub total_desired_fuel_kg: u64,
}

impl RefuelPanelInput {
    /// No fuel desired yet.
    pub fn new() -> (r: Self)
        ensures
            r.total_desired_fuel_kg == 0u64,
    {
        RefuelPanelInput { total_desired_fuel_kg: 0u64 }
    }

    /// Reads the desired total fuel.
    pub fn read(&mut self, total_desired_fuel_kg: u64)
        ensures
            final(self).total_desired_fuel_kg == total_desired_fuel_kg,
    {
        self.total_desired_fuel_kg = total_desired_fuel_kg;
    }

    pub fn total_desired_fuel_input(&self) -> (r: u64)
        ensures
            r == self.total_desired_fuel_kg,
    {
        self.total_desired_fuel_kg
    }
}

/// The integrated refuel panel: its power state, its mode and its input.
pub struct IntegratedRefuelPanel {
    pub is_powered: bool,
    pub mode_select: ModeSelect,
    pub input: RefuelPanelInput,
}

impl IntegratedRefuelPanel {
    /// Unpowered, in automatic refuel mode, with no fuel desired.
    pub fn new() -> (r: Self)
        ensures
            !r.is_powered,
            r.mode_select == ModeSelect::AutoRefuel,
            r.input.total_desired_fuel_kg == 0u64,
    {
        IntegratedRefuelPanel { is_powered: false, mode_select: ModeSelect::AutoRefuel, input: RefuelPanelInput::new() }
    }

    pub fn receive_power(&mut self, bus_powered: bool)
        ensures
            final(self).is_powered == bus_powered,
            final(self).mode_select == old(self).mode_select,
            final(self).input.total_desired_fuel_kg == old(self).input.total_desired_fuel_kg,
    {
        self.is_powered = bus_powered;
    }

    pub fn total_desired_fuel(&self) -> (r: u64)
        ensures
            r == self.input.total_desired_fuel_kg,
    {
        self.input.total_desired_fuel_input()
    }

    pub fn selected_mode(&self) -> (r: ModeSelect)
        ensures
            r == self.mode_select,
    {
        self.mode_select
    }
}

/// The refuel rate setting and what it depends on: the ground speed (metres per second,
/// a double's bit pattern) and whether the aircraft is on the ground.
pub struct RefuelRateInput {
    pub refuel_rate: i8,
    pub ground_speed_m_s: u64,
    pub is_on_ground: bool,
}

impl RefuelRateInput {
    /// Rate setting 0, no ground speed, not on the ground.
    pub fn new() -> (r: Self)
        ensures
            r.refuel_rate == 0i8,
            r.ground_speed_m_s == 0u64,
            !r.is_on_ground,
    {
        RefuelRateInput { refuel_rate: 0i8, ground_speed_m_s: 0u64, is_on_ground: false }
    }

    /// Reads the rate setting, the ground speed and whether on the ground.
    pub fn read(&mut self, refuel_rate: i8, ground_speed_m_s: u64, is_on_ground: bool)
        ensures
            final(self).refuel_rate == refuel_rate,
            final(self).ground_speed_m_s == ground_speed_m_s,
            final(self).is_on_ground == is_on_ground,
    {
        self.refuel_rate = refuel_rate;
        self.ground_speed_m_s = ground_speed_m_s;
        self.is_on_ground = is_on_ground;
    }
}

/// A command module (CPIOM): checks the desired fuel against the tank capacity and
/// commands automatic refuelling, when powered.
pub struct CoreProcessingInputsOutputsCommandModule {
    pub is_powered: bool,
    pub max_fuel_kg: u64,
    pub fuel_overflow_status: bool,
    pub fuel_total_weight_kg: u64,
    pub refuel_rate: RefuelRateInput,
}

impl CoreProcessingInputsOutputsCommandModule {
    /// An unpowered module for tanks holding at most `max_fuel_kg`.
    pub fn new(max_fuel_kg: u64) -> (r: Self)
        ensures
            !r.is_powered,
            r.max_fuel_kg == max_fuel_kg,
            !r.fuel_overflow_status,
            r.fuel_total_weight_kg == 0u64,
    {
        CoreProcessingInputsOutputsCommandModule {
            is_powered: false,
            max_fuel_kg,
            fuel_overflow_status: false,
            fuel_total_weight_kg: 0u64,
            refuel_rate: RefuelRateInput::new(),
        }
    }

    /// Reads the total fuel weight.
    pub fn read(&mut self, fuel_total_weight_kg: u64)
        ensures
            final(self).fuel_total_weight_kg == fuel_total_weight_kg,
            final(self).refuel_rate == old(self).refuel_rate,
            final(self).is_powered == old(self).is_powered,
            final(self).max_fuel_kg == old(self).max_fuel_kg,
            final(self).fuel_overflow_status == old(self).fuel_overflow_status,
    {
        self.fuel_total_weight_kg = fuel_total_weight_kg;
    }

    pub fn receive_power(&mut self, bus_powered: bool)
        ensures
            final(self).is_powered == bus_powered,
            final(self).max_fuel_kg == old(self).max_fuel_kg,
            final(self).fuel_overflow_status == old(self).fuel_overflow_status,
            final(self).fuel_total_weight_kg == old(self).fuel_total_weight_kg,
            final(self).refuel_rate == old(self).refuel_rate,
    {
        self.is_powered = bus_powered;
    }

    pub fn is_powered(&self) -> (r: bool)
        ensures
            r == self.is_powered,
    {
        self.is_powered
    }

    /// When powered: flags an overflow if more fuel is desired than the tanks hold, and
    /// returns whether automatic refuelling to the desired total is commanded (exactly
    /// when `auto_refuel`). Unpowered, nothing changes and nothing is commanded.
    pub fn update(&mut self, total_desired_fuel_kg: u64, auto_refuel: bool) -> (refuel: bool)
        ensures
            refuel == (old(self).is_powered && auto_refuel),
            final(self).fuel_overflow_status == if old(self).is_powered {
                f64_lt(old(self).max_fuel_kg, total_desired_fuel_kg)
            } else {
                old(self).fuel_overflow_status
            },
            final(self).is_powered == old(self).is_powered,
            final(self).max_fuel_kg == old(self).max_fuel_kg,
            final(self).fuel_total_weight_kg == old(self).fuel_total_weight_kg,
            final(self).refuel_rate == old(self).refuel_rate,
    {
        if self.is_powered {
            self.fuel_overflow_status = lt(self.max_fuel_kg, total_desired_fuel_kg);
            auto_refuel
        } else {
            false
        }
    }
}

/// A monitor module (CPIOM): only its power state is modelled.
pub struct CoreProcessingInputsOutputsMonitorModule {
    pub is_powered: bool,
}

impl CoreProcessingInputsOutputsMonitorModule {
    pub fn new() -> (r: Self)
        ensures
            !r.is_powered,
    {
        CoreProcessingInputsOutputsMonitorModule { is_powered: false }
    }

    pub fn receive_power(&mut self, bus_powered: bool)
        ensures
            final(self).is_powered == bus_powered,
    {
        self.is_powered = bus_powered;
    }
}

/// A fuel quantity data concentrator: only its power state is modelled.
pub struct FuelQuantityDataConcentrator {
    pub is_powered: bool,
}

impl FuelQuantityDataConcentrator {
    pub fn new() -> (r: Self)
        ensures
            !r.is_powered,
    {
        FuelQuantityDataConcentrator { is_powered: false }
    }

    pub fn receive_power(&mut self, bus_powered: bool)
        ensures
            final(self).is_powered == bus_powered,
    {
        self.is_powered = bus_powered;
    }
}

/// The fuel quantity management system: two command modules (the first on the DC
/// essential bus, the second on DC bus 1), their monitors and concentrators, and the
/// refuel panel.
pub struct A380FuelQuantityManagementSystem {
    pub fqdc_1: FuelQuantityDataConcentrator,
    pub cpiom_command_f1: CoreProcessingInputsOutputsCommandModule,
    pub cpiom_monitor_f3: CoreProcessingInputsOutputsMonitorModule,
    pub fqdc_2: FuelQuantityDataConcentrator,
    pub cpiom_command_f2: CoreProcessingInputsOutputsCommandModule,
    pub cpiom_monitor_f4: CoreProcessingInputsOutputsMonitorModule,
    pub integrated_refuel_panel: IntegratedRefuelPanel,
}

impl A380FuelQuantityManagementSystem {
    /// All units unpowered; both command modules know the total tank capacity.
    pub fn new(total_max_fuel_kg: u64) -> (r: Self)
        ensures
            r.cpiom_command_f1.max_fuel_kg == total_max_fuel_kg,
            r.cpiom_command_f2.max_fuel_kg == total_max_fuel_kg,
            !r.cpiom_command_f1.is_powered,
            !r.cpiom_command_f2.is_powered,
            r.integrated_refuel_panel.mode_select == ModeSelect::AutoRefuel,
    {
        A380FuelQuantityManagementSystem {
            integrated_refuel_panel: IntegratedRefuelPanel::new(),
            fqdc_1: FuelQuantityDataConcentrator::new(),
            fqdc_2: FuelQuantityDataConcentrator::new(),
            cpiom_command_f1: CoreProcessingInputsOutputsCommandModule::new(total_max_fuel_kg),
            cpiom_monitor_f3: CoreProcessingInputsOutputsMonitorModule::new(),
            cpiom_command_f2: CoreProcessingInputsOutputsCommandModule::new(total_max_fuel_kg),
            cpiom_monitor_f4: CoreProcessingInputsOutputsMonitorModule::new(),
        }
    }

    /// One update: the first command module acts if it is powered, otherwise the second;
    /// automatic refuelling applies in the panel's automatic mode. Returns the desired
    /// total fuel when automatic refuelling to it is commanded.
    pub fn update(&mut self) -> (r: Option<u64>)
        ensures
            ({
                let auto = old(self).integrated_refuel_panel.mode_select == ModeSelect::AutoRefuel;
                let desired = old(self).integrated_refuel_panel.input.total_desired_fuel_kg;
                let acting_powered = old(self).cpiom_command_f1.is_powered || old(self).cpiom_command_f2.is_powered;
                &&& r == if auto && acting_powered { Some(desired) } else { None }
                &&& old(self).cpiom_command_f1.is_powered ==> {
                    &&& final(self).cpiom_command_f1.fuel_overflow_status == f64_lt(
                        old(self).cpiom_command_f1.max_fuel_kg,
                        desired,
                    )
                    &&& final(self).cpiom_command_f2 == old(self).cpiom_command_f2
                }
                &&& !old(self).cpiom_command_f1.is_powered ==> {
                    &&& final(self).cpiom_command_f1 == old(self).cpiom_command_f1
                    &&& final(self).cpiom_command_f2.fuel_overflow_status == if old(self).cpiom_command_f2.is_powered {
                        f64_lt(old(self).cpiom_command_f2.max_fuel_kg, desired)
                    } else {
                        old(self).cpiom_command_f2.fuel_overflow_status
                    }
                }
                &&& final(self).integrated_refuel_panel == old(self).integrated_refuel_panel
            }),
    {
        let total_desired_fuel = self.integrated_refuel_panel.total_desired_fuel();
        let auto_refuel = match self.integrated_refuel_panel.selected_mode() {
            ModeSelect::AutoRefuel => true,
            _ => false,
        };
        let refuel = if self.cpiom_command_f1.is_powered() {
            self.cpiom_command_f1.update(total_desired_fuel, auto_refuel)
        } else {
            self.cpiom_command_f2.update(total_desired_fuel, auto_refuel)
        };
        if refuel {
            Some(total_desired_fuel)
        } else {
            None
        }
    }
}


/// Total fuel masses in kilograms (double bit patterns) at which the automatic refuel
/// schedule changes: points A to H of the refuel distribution table.
pub const REFUEL_POINT_A_KG: u64 = 0x40d1_9400_0000_0000u64;
pub const REFUEL_POINT_B_KG: u64 = 0x40d9_6400_0000_0000u64;
pub const REFUEL_POINT_C_KG: u64 = 0x40e1_9400_0000_0000u64;
pub const REFUEL_POINT_D_KG: u64 = 0x40e6_f300_0000_0000u64;
pub const REFUEL_POINT_E_KG: u64 = 0x40f9_56c0_0000_0000u64;
pub const REFUEL_POINT_F_KG: u64 = 0x4103_4ad0_0000_0000u64;
pub const REFUEL_POINT_G_KG: u64 = 0x410a_54b0_0000_0000u64;
pub const REFUEL_POINT_H_KG: u64 = 0x410b_39a0_0000_0000u64;

/// The piecewise schedules of automatic refuelling: the trim tank's share of the total,
/// and, of the fuel left for the wing, that of the feed, outer, inner and mid tanks.
#[derive(Clone, Copy, PartialEq, Eq, Structural, Debug)]
pub enum RefuelSchedule {
    Trim,
    Feed,
    OuterTank,
    InnerTank,
    MidTank,
}

/// The tanks that automatic refuelling fills alike: one value for the two outer feed
/// tanks (1 and 4), one for the two inner feed tanks (2 and 3), one per pair of wing
/// tanks, and the trim tank.
#[derive(Clone, Copy, PartialEq, Eq, Structural, Debug)]
pub enum RefuelGroup {
    OuterFeed,
    InnerFeed,
    OuterTank,
    MidTank,
    InnerTank,
    Trim,
}

/// The breakpoints of each schedule, in increasing order. A mass at or below the
/// breakpoint at index `i` (and above those before it) is in segment `i`; a mass above
/// all of them is in the last segment.
pub open spec fn refuel_breakpoints(schedule: RefuelSchedule) -> Seq<u64> {
    match schedule {
        RefuelSchedule::Trim => seq![REFUEL_POINT_E_KG, REFUEL_POINT_F_KG, REFUEL_POINT_H_KG],
        RefuelSchedule::Feed => seq![
            REFUEL_POINT_A_KG,
            REFUEL_POINT_B_KG,
            REFUEL_POINT_C_KG,
            REFUEL_POINT_D_KG,
            REFUEL_POINT_E_KG,
            REFUEL_POINT_H_KG,
        ],
        RefuelSchedule::OuterTank => seq![
            REFUEL_POINT_A_KG,
            REFUEL_POINT_B_KG,
            REFUEL_POINT_G_KG,
            REFUEL_POINT_H_KG,
        ],
        RefuelSchedule::InnerTank => seq![
            REFUEL_POINT_C_KG,
            REFUEL_POINT_D_KG,
            REFUEL_POINT_F_KG,
            REFUEL_POINT_G_KG,
            REFUEL_POINT_H_KG,
        ],
        RefuelSchedule::MidTank => seq![REFUEL_POINT_E_KG, REFUEL_POINT_F_KG, REFUEL_POINT_H_KG],
    }
}

pub fn schedule_breakpoints(schedule: RefuelSchedule) -> (r: Vec<u64>)
    ensures
        r@ == refuel_breakpoints(schedule),
{
    let r = match schedule {
        RefuelSchedule::Trim => vec![REFUEL_POINT_E_KG, REFUEL_POINT_F_KG, REFUEL_POINT_H_KG],
        RefuelSchedule::Feed => vec![
            REFUEL_POINT_A_KG,
            REFUEL_POINT_B_KG,
            REFUEL_POINT_C_KG,
            REFUEL_POINT_D_KG,
            REFUEL_POINT_E_KG,
            REFUEL_POINT_H_KG,
        ],
        RefuelSchedule::OuterTank => vec![
            REFUEL_POINT_A_KG,
            REFUEL_POINT_B_KG,
            REFUEL_POINT_G_KG,
            REFUEL_POINT_H_KG,
        ],
        RefuelSchedule::InnerTank => vec![
            REFUEL_POINT_C_KG,
            REFUEL_POINT_D_KG,
            REFUEL_POINT_F_KG,
            REFUEL_POINT_G_KG,
            REFUEL_POINT_H_KG,
        ],
        RefuelSchedule::MidTank => vec![REFUEL_POINT_E_KG, REFUEL_POINT_F_KG, REFUEL_POINT_H_KG],
    };
    assert(r@ =~= refuel_breakpoints(schedule));
    r
}

/// The segment of `schedule` that the mass `mass_kg` falls in: the index of the first
/// breakpoint it does not exceed, or the number of breakpoints when it exceeds them all
/// (a NaN exceeds them all, as no comparison with it holds).
pub open spec fn is_refuel_segment(schedule: RefuelSchedule, mass_kg: u64, seg: int) -> bool {
    let bps = refuel_breakpoints(schedule);
    &&& 0 <= seg <= bps.len()
    &&& forall|i: int| 0 <= i < seg ==> !f64_le(mass_kg, #[trigger] bps[i])
    &&& seg < bps.len() ==> f64_le(mass_kg, bps[seg])
}

pub fn refuel_segment(schedule: RefuelSchedule, mass_kg: u64) -> (seg: usize)
    ensures
        is_refuel_segment(schedule, mass_kg, seg as int),
{
    let bps = schedule_breakpoints(schedule);
    let mut i: usize = 0;
    while i < bps.len()
        invariant
            i <= bps@.len(),
            bps@ == refuel_breakpoints(schedule),
            forall|j: int| 0 <= j < i ==> !f64_le(mass_kg, #[trigger] bps@[j]),
        decreases bps@.len() - i,
    {
        if le(mass_kg, bps[i]) {
            return i;
        }
        i = i + 1;
    }
    i
}

/// Which group, and so which value of the refuel distribution, a tank receives.
pub open spec fn refuel_group_spec(tank: A380FuelTankType) -> RefuelGroup {
    match tank {
        A380FuelTankType::FeedOne | A380FuelTankType::FeedFour => RefuelGroup::OuterFeed,
        A380FuelTankType::FeedTwo | A380FuelTankType::FeedThree => RefuelGroup::InnerFeed,
        A380FuelTankType::LeftOuter | A380FuelTankType::RightOuter => RefuelGroup::OuterTank,
        A380FuelTankType::LeftMid | A380FuelTankType::RightMid => RefuelGroup::MidTank,
        A380FuelTankType::LeftInner | A380FuelTankType::RightInner => RefuelGroup::InnerTank,
        A380FuelTankType::Trim => RefuelGroup::Trim,
    }
}

pub fn refuel_group(tank: A380FuelTankType) -> (g: RefuelGroup)
    ensures
        g == refuel_group_spec(tank),
{
    match tank {
        A380FuelTankType::FeedOne | A380FuelTankType::FeedFour => RefuelGroup::OuterFeed,
        A380FuelTankType::FeedTwo | A380FuelTankType::FeedThree => RefuelGroup::InnerFeed,
        A380FuelTankType::LeftOuter | A380FuelTankType::RightOuter => RefuelGroup::OuterTank,
        A380FuelTankType::LeftMid | A380FuelTankType::RightMid => RefuelGroup::MidTank,
        A380FuelTankType::LeftInner | A380FuelTankType::RightInner => RefuelGroup::InnerTank,
        A380FuelTankType::Trim => RefuelGroup::Trim,
    }
}

/// The schedule that decides a group's value: both feed groups follow the feed
/// schedule (with their own marks), the trim tank the trim schedule on the total.
pub open spec fn group_schedule_spec(group: RefuelGroup) -> RefuelSchedule {
    match group {
        RefuelGroup::OuterFeed | RefuelGroup::InnerFeed => RefuelSchedule::Feed,
        RefuelGroup::OuterTank => RefuelSchedule::OuterTank,
        RefuelGroup::MidTank => RefuelSchedule::MidTank,
        RefuelGroup::InnerTank => RefuelSchedule::InnerTank,
        RefuelGroup::Trim => RefuelSchedule::Trim,
    }
}

pub fn group_schedule(group: RefuelGroup) -> (s: RefuelSchedule)
    ensures
        s == group_schedule_spec(group),
{
    match group {
        RefuelGroup::OuterFeed | RefuelGroup::InnerFeed => RefuelSchedule::Feed,
        RefuelGroup::OuterTank => RefuelSchedule::OuterTank,
        RefuelGroup::MidTank => RefuelSchedule::MidTank,
        RefuelGroup::InnerTank => RefuelSchedule::InnerTank,
        RefuelGroup::Trim => RefuelSchedule::Trim,
    }
}

/// Which value automatic refuelling gives each tank: feed tanks 1 and 4 (the outer feed
/// tanks) share the outer-feed value, feed tanks 2 and 3 (the inner feed tanks) the
/// inner-feed value, each pair of wing tanks (left and right) shares its value, and the
/// trim tank has its own. Every tank of a group is named here, and no other.
pub proof fn lemma_refuel_groups(tank: A380FuelTankType)
    ensures
        (refuel_group_spec(tank) == RefuelGroup::OuterFeed) <==> (tank == A380FuelTankType::FeedOne
            || tank == A380FuelTankType::FeedFour),
        (refuel_group_spec(tank) == RefuelGroup::InnerFeed) <==> (tank == A380FuelTankType::FeedTwo
            || tank == A380FuelTankType::FeedThree),
        (refuel_group_spec(tank) == RefuelGroup::OuterTank) <==> (tank == A380FuelTankType::LeftOuter
            || tank == A380FuelTankType::RightOuter),
        (refuel_group_spec(tank) == RefuelGroup::MidTank) <==> (tank == A380FuelTankType::LeftMid
            || tank == A380FuelTankType::RightMid),
        (refuel_group_spec(tank) == RefuelGroup::InnerTank) <==> (tank == A380FuelTankType::LeftInner
            || tank == A380FuelTankType::RightInner),
        (refuel_group_spec(tank) == RefuelGroup::Trim) <==> (tank == A380FuelTankType::Trim),
{
}

/// Each group takes its value from its own schedule: both feed groups from the feed
/// schedule, the wing tank groups from theirs, and the trim tank from the trim schedule.
pub proof fn lemma_group_schedules()
    ensures
        group_schedule_spec(RefuelGroup::OuterFeed) == RefuelSchedule::Feed,
        group_schedule_spec(RefuelGroup::InnerFeed) == RefuelSchedule::Feed,
        group_schedule_spec(RefuelGroup::OuterTank) == RefuelSchedule::OuterTank,
        group_schedule_spec(RefuelGroup::MidTank) == RefuelSchedule::MidTank,
        group_schedule_spec(RefuelGroup::InnerTank) == RefuelSchedule::InnerTank,
        group_schedule_spec(RefuelGroup::Trim) == RefuelSchedule::Trim,
{
}

/// Each schedule's breakpoints increase strictly.
pub proof fn lemma_refuel_breakpoints_increase(schedule: RefuelSchedule, i: int, j: int)
    requires
        0 <= i < j < refuel_breakpoints(schedule).len(),
    ensures
        f64_lt(refuel_breakpoints(schedule)[i], refuel_breakpoints(schedule)[j]),
{
    assert(f64_lt(0x40d1_9400_0000_0000u64, 0x40d9_6400_0000_0000u64) && f64_lt(
        0x40d9_6400_0000_0000u64,
        0x40e1_9400_0000_0000u64,
    ) && f64_lt(0x40e1_9400_0000_0000u64, 0x40e6_f300_0000_0000u64) && f64_lt(
        0x40e6_f300_0000_0000u64,
        0x40f9_56c0_0000_0000u64,
    ) && f64_lt(0x40f9_56c0_0000_0000u64, 0x4103_4ad0_0000_0000u64) && f64_lt(
        0x4103_4ad0_0000_0000u64,
        0x410a_54b0_0000_0000u64,
    ) && f64_lt(0x410a_54b0_0000_0000u64, 0x410b_39a0_0000_0000u64)) by (bit_vector);
}

/// The pressure controller to read: the first of the four whose discrete word reports
/// normal operation (numbered from 1), or 0 when none does.
pub fn select_cpcs(normal_operation: [bool; 4]) -> (r: u8)
    ensures
        r == if normal_operation@[0] {
            1u8
        } else if normal_operation@[1] {
            2u8
        } else if normal_operation@[2] {
            3u8
        } else if normal_operation@[3] {
            4u8
        } else {
            0u8
        },
{
    if normal_operation[0] {
        1
    } else if normal_operation[1] {
        2
    } else if normal_operation[2] {
        3
    } else if normal_operation[3] {
        4
    } else {
        0
    }
}

} // verus!
