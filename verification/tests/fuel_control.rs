use fbw_systems::fuel::{A380FuelPump, A380FuelTankType, A380FuelValve};
use fbw_systems::fuel_control::FuelControlApplication;
use fbw_systems::fuel_transfer::{TankMode, TransferGalleryTankConnections};

#[test]
fn nothing_requested_at_start() {
    let app = FuelControlApplication::new();
    assert!(!app.is_pump_requested_running(A380FuelPump::Feed1Main));
    assert!(!app.is_pump_requested_running(A380FuelPump::TrimRight));
    assert!(!app.is_valve_requested_open(A380FuelValve::TrimTankInletValve1));
}

#[test]
fn source_tanks_run_both_pumps() {
    let mut g = TransferGalleryTankConnections::new();
    g.set_forward_gallery_modes(&vec![
        (A380FuelTankType::LeftOuter, TankMode::Source),
        (A380FuelTankType::LeftInner, TankMode::Source),
        (A380FuelTankType::FeedOne, TankMode::Target),
    ]);
    g.set_aft_gallery_modes(&vec![(A380FuelTankType::Trim, TankMode::Source)]);
    let mut app = FuelControlApplication::new();
    app.update(&g);
    assert!(app.is_pump_requested_running(A380FuelPump::LeftOuter));
    assert!(app.is_pump_requested_running(A380FuelPump::LeftInnerFwd));
    assert!(app.is_pump_requested_running(A380FuelPump::LeftInnerAft));
    assert!(app.is_pump_requested_running(A380FuelPump::TrimLeft));
    assert!(app.is_pump_requested_running(A380FuelPump::TrimRight));
    assert!(!app.is_pump_requested_running(A380FuelPump::Feed1Main));
    assert!(!app.is_pump_requested_running(A380FuelPump::RightOuter));
    assert!(!app.is_valve_requested_open(A380FuelValve::FeedTank1ForwardTransferValve));
}

#[test]
fn update_drops_previous_requests() {
    let mut g = TransferGalleryTankConnections::new();
    g.set_forward_gallery_modes(&vec![(A380FuelTankType::RightMid, TankMode::Source)]);
    let mut app = FuelControlApplication::new();
    app.update(&g);
    assert!(app.is_pump_requested_running(A380FuelPump::RightMidFwd));
    app.update(&TransferGalleryTankConnections::new());
    assert!(!app.is_pump_requested_running(A380FuelPump::RightMidFwd));
    assert!(!app.is_pump_requested_running(A380FuelPump::RightMidAft));
}
