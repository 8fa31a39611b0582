use fbw_systems::fuel::{tank_from_usize, A380FuelTankType, TANK_COUNT};
use fbw_systems::fuel_quantity_management::{
    group_schedule, refuel_group, refuel_segment, schedule_breakpoints, select_cpcs,
    A380FuelQuantityManagementSystem, CoreProcessingInputsOutputsCommandModule,
    CoreProcessingInputsOutputsMonitorModule, FuelQuantityDataConcentrator, IntegratedRefuelPanel,
    ModeSelect, RefuelGroup, RefuelPanelInput, RefuelRateInput, RefuelSchedule, REFUEL_POINT_A_KG,
    REFUEL_POINT_H_KG,
};

fn kg(x: f64) -> u64 {
    x.to_bits()
}

#[test]
fn refuel_points_are_the_table_values() {
    assert_eq!(REFUEL_POINT_A_KG, 18_000f64.to_bits());
    assert_eq!(REFUEL_POINT_H_KG, 223_028f64.to_bits());
    let trim: Vec<f64> = schedule_breakpoints(RefuelSchedule::Trim)
        .into_iter()
        .map(f64::from_bits)
        .collect();
    assert_eq!(trim, vec![103_788., 158_042., 223_028.]);
    let feed: Vec<f64> = schedule_breakpoints(RefuelSchedule::Feed)
        .into_iter()
        .map(f64::from_bits)
        .collect();
    assert_eq!(feed, vec![18_000., 26_000., 36_000., 47_000., 103_788., 223_028.]);
    let outer: Vec<f64> = schedule_breakpoints(RefuelSchedule::OuterTank)
        .into_iter()
        .map(f64::from_bits)
        .collect();
    assert_eq!(outer, vec![18_000., 26_000., 215_702., 223_028.]);
    let inner: Vec<f64> = schedule_breakpoints(RefuelSchedule::InnerTank)
        .into_iter()
        .map(f64::from_bits)
        .collect();
    assert_eq!(inner, vec![36_000., 47_000., 158_042., 215_702., 223_028.]);
    let mid: Vec<f64> = schedule_breakpoints(RefuelSchedule::MidTank)
        .into_iter()
        .map(f64::from_bits)
        .collect();
    assert_eq!(mid, vec![103_788., 158_042., 223_028.]);
}

#[test]
fn refuel_segments_are_inclusive_above() {
    assert_eq!(refuel_segment(RefuelSchedule::Feed, kg(0.)), 0);
    assert_eq!(refuel_segment(RefuelSchedule::Feed, kg(18_000.)), 0);
    assert_eq!(refuel_segment(RefuelSchedule::Feed, kg(18_000.5)), 1);
    assert_eq!(refuel_segment(RefuelSchedule::Feed, kg(100_000.)), 4);
    assert_eq!(refuel_segment(RefuelSchedule::Feed, kg(223_028.)), 5);
    assert_eq!(refuel_segment(RefuelSchedule::Feed, kg(300_000.)), 6);
    assert_eq!(refuel_segment(RefuelSchedule::Trim, kg(160_000.)), 2);
    assert_eq!(refuel_segment(RefuelSchedule::MidTank, kg(-5.)), 0);
    // No comparison with NaN holds: it falls past every breakpoint.
    assert_eq!(refuel_segment(RefuelSchedule::InnerTank, f64::NAN.to_bits()), 5);
}

#[test]
fn refuel_groups_of_tanks() {
    assert_eq!(refuel_group(A380FuelTankType::FeedOne), RefuelGroup::OuterFeed);
    assert_eq!(refuel_group(A380FuelTankType::FeedFour), RefuelGroup::OuterFeed);
    assert_eq!(refuel_group(A380FuelTankType::FeedTwo), RefuelGroup::InnerFeed);
    assert_eq!(refuel_group(A380FuelTankType::RightOuter), RefuelGroup::OuterTank);
    assert_eq!(refuel_group(A380FuelTankType::LeftMid), RefuelGroup::MidTank);
    assert_eq!(refuel_group(A380FuelTankType::RightInner), RefuelGroup::InnerTank);
    assert_eq!(refuel_group(A380FuelTankType::Trim), RefuelGroup::Trim);
    assert_eq!(group_schedule(RefuelGroup::InnerFeed), RefuelSchedule::Feed);
    assert_eq!(group_schedule(RefuelGroup::Trim), RefuelSchedule::Trim);
    let mut trims = 0;
    for i in 0..TANK_COUNT {
        if refuel_group(tank_from_usize(i)) == RefuelGroup::Trim {
            trims += 1;
        }
    }
    assert_eq!(trims, 1);
}

#[test]
fn refuel_panel_and_modules() {
    let mut panel = IntegratedRefuelPanel::new();
    assert_eq!(panel.selected_mode(), ModeSelect::AutoRefuel);
    panel.input.read(kg(50_000.));
    panel.receive_power(true);
    assert_eq!(panel.total_desired_fuel(), kg(50_000.));
    assert!(panel.is_powered);

    let mut m = CoreProcessingInputsOutputsMonitorModule::new();
    m.receive_power(true);
    assert!(m.is_powered);
    let mut c = FuelQuantityDataConcentrator::new();
    c.receive_power(true);
    assert!(c.is_powered);

    let mut cmd = CoreProcessingInputsOutputsCommandModule::new(kg(250_000.));
    assert!(!cmd.update(kg(300_000.), true));
    assert!(!cmd.fuel_overflow_status);
    cmd.receive_power(true);
    assert!(cmd.update(kg(300_000.), true));
    assert!(cmd.fuel_overflow_status);
    assert!(!cmd.update(kg(100_000.), false));
    assert!(!cmd.fuel_overflow_status);
    cmd.read(kg(1234.));
    assert_eq!(cmd.fuel_total_weight_kg, kg(1234.));
}

#[test]
fn the_first_command_module_takes_precedence() {
    let mut fqms = A380FuelQuantityManagementSystem::new(kg(250_000.));
    fqms.integrated_refuel_panel.input.read(kg(260_000.));
    // Neither module powered: nothing commanded.
    assert_eq!(fqms.update(), None);
    fqms.cpiom_command_f2.receive_power(true);
    assert_eq!(fqms.update(), Some(kg(260_000.)));
    assert!(fqms.cpiom_command_f2.fuel_overflow_status);
    assert!(!fqms.cpiom_command_f1.fuel_overflow_status);
    fqms.cpiom_command_f1.receive_power(true);
    fqms.integrated_refuel_panel.input.read(kg(100_000.));
    assert_eq!(fqms.update(), Some(kg(100_000.)));
    assert!(!fqms.cpiom_command_f1.fuel_overflow_status);
    assert!(fqms.cpiom_command_f2.fuel_overflow_status);
    fqms.integrated_refuel_panel.mode_select = ModeSelect::Defuel;
    assert_eq!(fqms.update(), None);
}

#[test]
fn pressure_controller_selection() {
    assert_eq!(select_cpcs([true, true, true, true]), 1);
    assert_eq!(select_cpcs([false, true, false, true]), 2);
    assert_eq!(select_cpcs([false, false, true, true]), 3);
    assert_eq!(select_cpcs([false, false, false, true]), 4);
    assert_eq!(select_cpcs([false, false, false, false]), 0);
}

#[test]
fn refuel_inputs_hold_what_was_read() {
    let mut input = RefuelPanelInput::new();
    assert_eq!(input.total_desired_fuel_input(), 0);
    input.read(kg(12_000.));
    assert_eq!(input.total_desired_fuel_input(), kg(12_000.));
    let mut rate = RefuelRateInput::new();
    assert_eq!(rate.refuel_rate, 0);
    rate.read(2, 3.5f64.to_bits(), true);
    assert_eq!(rate.refuel_rate, 2);
    assert_eq!(rate.ground_speed_m_s, 3.5f64.to_bits());
    assert!(rate.is_on_ground);
}
