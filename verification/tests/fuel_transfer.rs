use fbw_systems::fuel::{tank_into_usize, A380FuelTankType, TANK_COUNT};
use fbw_systems::fuel_transfer::{
    FuelTransferApplication, LoadAlleviationTransfer, TankMode, TankQuantities,
    TransferGalleryTankConnections, DESCENT_ARM_ALTITUDE_M, DESCENT_TRIGGER_ALTITUDE_M,
    OUTER_TANK_FILL_MIN_FUEL_LB, OUTER_TANK_TRANSFER_MIN_LB, TRANSFER_FROM_OUTER_START_NS,
    TRANSFER_FROM_OUTER_STOP_NS, TRIM_TANK_FWD_TRANSFER_START_NS, TRIM_TANK_FWD_TRANSFER_STOP_NS,
};
use uom::si::f64::Length;
use uom::si::length::foot;

const MIN_NS: u128 = 60_000_000_000;

fn lb(x: f64) -> u64 {
    x.to_bits()
}

fn metres(x: f64) -> Option<u64> {
    Some(x.to_bits())
}

fn quantities(each_lb: f64) -> TankQuantities {
    TankQuantities {
        quantities_lb: vec![lb(each_lb); TANK_COUNT],
        full: vec![false; TANK_COUNT],
        empty: vec![false; TANK_COUNT],
    }
}

fn mode(gallery: &[Option<TankMode>], tank: A380FuelTankType) -> Option<TankMode> {
    gallery[tank_into_usize(tank)]
}

#[test]
fn thresholds_match_their_physical_values() {
    assert_eq!(OUTER_TANK_FILL_MIN_FUEL_LB, 110_200f64.to_bits());
    assert_eq!(OUTER_TANK_TRANSFER_MIN_LB, 8_800f64.to_bits());
    assert_eq!(DESCENT_ARM_ALTITUDE_M, Length::new::<foot>(25_500.).value.to_bits());
    assert_eq!(DESCENT_TRIGGER_ALTITUDE_M, Length::new::<foot>(24_500.).value.to_bits());
    assert_eq!(TRIM_TANK_FWD_TRANSFER_STOP_NS, 80 * MIN_NS);
    assert_eq!(TRIM_TANK_FWD_TRANSFER_START_NS, 78 * MIN_NS);
    assert_eq!(TRANSFER_FROM_OUTER_STOP_NS, 30 * MIN_NS);
    assert_eq!(TRANSFER_FROM_OUTER_START_NS, 28 * MIN_NS);
}

#[test]
fn galleries_start_unused_and_later_modes_win() {
    let mut g = TransferGalleryTankConnections::new();
    assert!(g.is_forward_gallery_usable());
    assert!(g.is_aft_gallery_usable());
    g.set_forward_gallery_modes(&vec![
        (A380FuelTankType::LeftOuter, TankMode::Target),
        (A380FuelTankType::LeftOuter, TankMode::Source),
    ]);
    assert!(!g.is_forward_gallery_usable());
    assert!(g.is_aft_gallery_usable());
    assert_eq!(mode(&g.forward_gallery, A380FuelTankType::LeftOuter), Some(TankMode::Source));
    assert_eq!(mode(&g.forward_gallery, A380FuelTankType::RightOuter), None);
    g.set_aft_gallery_modes(&vec![(A380FuelTankType::Trim, TankMode::Source)]);
    assert!(!g.is_aft_gallery_usable());
    assert_eq!(mode(&g.aft_gallery, A380FuelTankType::Trim), Some(TankMode::Source));
}

#[test]
fn tank_quantity_queries() {
    let mut q = quantities(1_000.);
    q.quantities_lb[tank_into_usize(A380FuelTankType::Trim)] = lb(42.);
    q.full[tank_into_usize(A380FuelTankType::FeedOne)] = true;
    q.full[tank_into_usize(A380FuelTankType::FeedTwo)] = true;
    q.empty[tank_into_usize(A380FuelTankType::LeftMid)] = true;
    q.empty[tank_into_usize(A380FuelTankType::RightMid)] = true;
    assert_eq!(q.get_tank_quantity(A380FuelTankType::Trim), lb(42.));
    assert!(q.tank_full(A380FuelTankType::FeedOne));
    assert!(!q.tank_full(A380FuelTankType::FeedThree));
    assert!(q.tank_empty(A380FuelTankType::LeftMid));
    assert!(q.tanks_full(&vec![A380FuelTankType::FeedOne, A380FuelTankType::FeedTwo]));
    assert!(!q.tanks_full(&vec![A380FuelTankType::FeedOne, A380FuelTankType::FeedThree]));
    assert!(q.tanks_empty(&vec![A380FuelTankType::LeftMid, A380FuelTankType::RightMid]));
    assert!(q.tanks_full(&vec![]));
}

#[test]
fn outer_tanks_fill_in_flight_with_enough_fuel() {
    let q = quantities(1_000.);
    let mut t = LoadAlleviationTransfer::new();
    t.update(&q, lb(120_000.), None, true, false, metres(10_000.));
    assert!(t.is_transfer_to_outer_tank_active());
    assert!(!t.is_transfer_from_outer_tank_active());
    assert!(!t.is_trim_tank_forward_transfer_active());

    let mut g = TransferGalleryTankConnections::new();
    t.set_gallery_modes(&mut g, &q);
    assert_eq!(mode(&g.forward_gallery, A380FuelTankType::LeftOuter), Some(TankMode::Target));
    assert_eq!(mode(&g.forward_gallery, A380FuelTankType::RightOuter), Some(TankMode::Target));
    assert_eq!(mode(&g.forward_gallery, A380FuelTankType::LeftInner), Some(TankMode::Source));
    assert_eq!(mode(&g.forward_gallery, A380FuelTankType::RightInner), Some(TankMode::Source));
    assert_eq!(mode(&g.forward_gallery, A380FuelTankType::LeftMid), None);
    assert!(g.is_aft_gallery_usable());
}

#[test]
fn outer_tanks_fill_from_mid_tanks_once_inner_tanks_are_empty() {
    let mut q = quantities(1_000.);
    q.empty[tank_into_usize(A380FuelTankType::LeftInner)] = true;
    q.empty[tank_into_usize(A380FuelTankType::RightInner)] = true;
    q.full[tank_into_usize(A380FuelTankType::RightOuter)] = true;
    let mut t = LoadAlleviationTransfer::new();
    t.update(&q, lb(120_000.), None, true, false, None);
    let mut g = TransferGalleryTankConnections::new();
    t.set_gallery_modes(&mut g, &q);
    assert_eq!(mode(&g.forward_gallery, A380FuelTankType::LeftOuter), Some(TankMode::Target));
    assert_eq!(mode(&g.forward_gallery, A380FuelTankType::RightOuter), None);
    assert_eq!(mode(&g.forward_gallery, A380FuelTankType::LeftMid), Some(TankMode::Source));
    assert_eq!(mode(&g.forward_gallery, A380FuelTankType::LeftInner), None);
}

#[test]
fn no_outer_fill_at_the_threshold_or_on_the_ground() {
    let q = quantities(1_000.);
    let mut t = LoadAlleviationTransfer::new();
    t.update(&q, lb(110_200.), None, true, false, None);
    assert!(!t.is_transfer_to_outer_tank_active());
    t.update(&q, lb(150_000.), None, false, false, None);
    assert!(!t.is_transfer_to_outer_tank_active());
}

#[test]
fn outer_tanks_empty_near_the_end_of_the_flight() {
    let q = quantities(9_000.);
    let mut t = LoadAlleviationTransfer::new();
    t.update(&q, lb(50_000.), Some(29 * MIN_NS), true, false, None);
    assert!(!t.is_transfer_from_outer_tank_active());
    t.update(&q, lb(50_000.), Some(27 * MIN_NS), true, false, None);
    assert!(t.is_transfer_from_outer_tank_active());
    // Once running it continues up to 30 minutes out.
    t.update(&q, lb(50_000.), Some(30 * MIN_NS), true, false, None);
    assert!(t.is_transfer_from_outer_tank_active());
    t.update(&q, lb(50_000.), Some(31 * MIN_NS), true, false, None);
    assert!(!t.is_transfer_from_outer_tank_active());

    t.update(&q, lb(50_000.), Some(20 * MIN_NS), true, false, None);
    let mut g = TransferGalleryTankConnections::new();
    t.set_gallery_modes(&mut g, &q);
    assert_eq!(mode(&g.forward_gallery, A380FuelTankType::LeftOuter), Some(TankMode::Source));
    assert_eq!(mode(&g.forward_gallery, A380FuelTankType::FeedOne), Some(TankMode::Target));
    assert_eq!(mode(&g.forward_gallery, A380FuelTankType::FeedFour), Some(TankMode::Target));
    assert_eq!(mode(&g.forward_gallery, A380FuelTankType::LeftMid), None);
}

#[test]
fn outer_tanks_need_more_than_the_minimum() {
    let q = quantities(8_800.);
    let mut t = LoadAlleviationTransfer::new();
    t.update(&q, lb(50_000.), Some(10 * MIN_NS), true, false, None);
    assert!(!t.is_transfer_from_outer_tank_active());
}

#[test]
fn descent_starts_outer_and_trim_transfers() {
    let q = quantities(9_000.);
    let mut t = LoadAlleviationTransfer::new();
    t.update(&q, lb(50_000.), None, true, false, metres(8_000.));
    assert!(!t.is_transfer_from_outer_tank_active());
    assert!(!t.is_trim_tank_forward_transfer_active());
    t.update(&q, lb(50_000.), None, true, false, metres(7_000.));
    assert!(t.is_transfer_from_outer_tank_active());
    assert!(t.is_trim_tank_forward_transfer_active());
}

#[test]
fn trim_tank_moves_fuel_forward_into_feed_tanks_that_are_not_full() {
    let mut q = quantities(5_000.);
    q.full[tank_into_usize(A380FuelTankType::FeedTwo)] = true;
    let mut t = LoadAlleviationTransfer::new();
    t.update(&q, lb(50_000.), Some(79 * MIN_NS), true, false, None);
    assert!(!t.is_trim_tank_forward_transfer_active());
    t.update(&q, lb(50_000.), Some(77 * MIN_NS), true, false, None);
    assert!(t.is_trim_tank_forward_transfer_active());
    // Continues while the remaining time is unknown or at most 80 minutes.
    t.update(&q, lb(50_000.), None, true, false, None);
    assert!(t.is_trim_tank_forward_transfer_active());
    t.update(&q, lb(50_000.), Some(80 * MIN_NS), true, false, None);
    assert!(t.is_trim_tank_forward_transfer_active());

    let mut g = TransferGalleryTankConnections::new();
    t.set_gallery_modes(&mut g, &q);
    assert_eq!(mode(&g.aft_gallery, A380FuelTankType::Trim), Some(TankMode::Source));
    assert_eq!(mode(&g.aft_gallery, A380FuelTankType::FeedOne), Some(TankMode::Target));
    assert_eq!(mode(&g.aft_gallery, A380FuelTankType::FeedTwo), None);
    assert_eq!(mode(&g.aft_gallery, A380FuelTankType::FeedThree), Some(TankMode::Target));

    t.update(&q, lb(50_000.), Some(81 * MIN_NS), true, false, None);
    assert!(!t.is_trim_tank_forward_transfer_active());
}

#[test]
fn trim_transfer_stops_when_isolated_or_empty() {
    let mut q = quantities(5_000.);
    let mut t = LoadAlleviationTransfer::new();
    t.update(&q, lb(50_000.), Some(10 * MIN_NS), true, false, None);
    assert!(t.is_trim_tank_forward_transfer_active());
    t.update(&q, lb(50_000.), Some(10 * MIN_NS), true, true, None);
    assert!(!t.is_trim_tank_forward_transfer_active());
    q.empty[tank_into_usize(A380FuelTankType::Trim)] = true;
    t.update(&q, lb(50_000.), Some(10 * MIN_NS), true, false, None);
    assert!(!t.is_trim_tank_forward_transfer_active());
}

#[test]
fn used_galleries_are_left_alone() {
    let q = quantities(9_000.);
    let mut t = LoadAlleviationTransfer::new();
    t.update(&q, lb(50_000.), Some(10 * MIN_NS), true, false, None);
    let mut g = TransferGalleryTankConnections::new();
    g.set_forward_gallery_modes(&vec![(A380FuelTankType::LeftMid, TankMode::Source)]);
    g.set_aft_gallery_modes(&vec![(A380FuelTankType::RightMid, TankMode::Source)]);
    t.set_gallery_modes(&mut g, &q);
    assert_eq!(mode(&g.forward_gallery, A380FuelTankType::LeftOuter), None);
    assert_eq!(mode(&g.aft_gallery, A380FuelTankType::Trim), None);
}

#[test]
fn transfer_application_update_and_reset() {
    let q = quantities(9_000.);
    let mut app = FuelTransferApplication::new();
    assert!(app.gallery_connections().is_forward_gallery_usable());
    app.update(&q, Some(lb(50_000.)), Some(10 * MIN_NS), true, false, None);
    let g = app.gallery_connections();
    assert_eq!(mode(&g.forward_gallery, A380FuelTankType::LeftOuter), Some(TankMode::Source));
    assert_eq!(mode(&g.aft_gallery, A380FuelTankType::Trim), Some(TankMode::Source));

    // Without a known fuel on board the galleries are cleared.
    app.update(&q, None, Some(10 * MIN_NS), true, false, None);
    assert!(app.gallery_connections().is_forward_gallery_usable());
    assert!(app.gallery_connections().is_aft_gallery_usable());

    app.update(&q, Some(lb(50_000.)), Some(10 * MIN_NS), true, false, None);
    app.reset();
    assert!(app.gallery_connections().is_forward_gallery_usable());
    assert!(app.gallery_connections().is_aft_gallery_usable());
}
