use fbw_systems::fuel::{
    feed_tank_list, inner_tank_list, mid_tank_list, outer_tank_list, pump_into_usize, pump_tank,
    tank_from_usize, tank_inlet_valves, tank_into_usize, tank_pumps, valve_into_usize,
    A380FuelPump, A380FuelTankType, A380FuelValve, PUMP_COUNT, TANK_COUNT, VALVE_COUNT,
};

const ALL_PUMPS: [A380FuelPump; 20] = [
    A380FuelPump::Feed1Main,
    A380FuelPump::Feed1Stby,
    A380FuelPump::Feed2Main,
    A380FuelPump::Feed2Stby,
    A380FuelPump::Feed3Main,
    A380FuelPump::Feed3Stby,
    A380FuelPump::Feed4Main,
    A380FuelPump::Feed4Stby,
    A380FuelPump::LeftInnerFwd,
    A380FuelPump::LeftInnerAft,
    A380FuelPump::LeftMidFwd,
    A380FuelPump::LeftMidAft,
    A380FuelPump::LeftOuter,
    A380FuelPump::RightInnerFwd,
    A380FuelPump::RightInnerAft,
    A380FuelPump::RightMidFwd,
    A380FuelPump::RightMidAft,
    A380FuelPump::RightOuter,
    A380FuelPump::TrimLeft,
    A380FuelPump::TrimRight,
];

#[test]
fn tank_indices_follow_declaration_order() {
    assert_eq!(TANK_COUNT, 11);
    for i in 0..TANK_COUNT {
        assert_eq!(tank_into_usize(tank_from_usize(i)), i);
    }
    assert_eq!(tank_into_usize(A380FuelTankType::FeedOne), 0);
    assert_eq!(tank_into_usize(A380FuelTankType::LeftOuter), 6);
    assert_eq!(tank_into_usize(A380FuelTankType::Trim), 10);
}

#[test]
fn pump_indices_are_distinct_and_in_range() {
    assert_eq!(PUMP_COUNT, 20);
    let mut seen = vec![false; PUMP_COUNT];
    for p in ALL_PUMPS {
        let i = pump_into_usize(p);
        assert!(i < PUMP_COUNT);
        assert!(!seen[i]);
        seen[i] = true;
    }
    assert_eq!(pump_into_usize(A380FuelPump::Feed1Main), 0);
    assert_eq!(pump_into_usize(A380FuelPump::TrimRight), 19);
}

#[test]
fn tank_pumps_draw_from_their_tank() {
    for i in 0..TANK_COUNT {
        let tank = tank_from_usize(i);
        let (a, b) = tank_pumps(tank);
        assert_eq!(pump_tank(a), tank);
        assert_eq!(pump_tank(b), tank);
    }
    assert_eq!(
        tank_pumps(A380FuelTankType::LeftOuter),
        (A380FuelPump::LeftOuter, A380FuelPump::LeftOuter)
    );
    assert_eq!(
        tank_pumps(A380FuelTankType::Trim),
        (A380FuelPump::TrimLeft, A380FuelPump::TrimRight)
    );
}

#[test]
fn every_pump_is_listed_for_its_tank() {
    for p in ALL_PUMPS {
        let (a, b) = tank_pumps(pump_tank(p));
        assert!(a == p || b == p);
    }
}

#[test]
fn inlet_valves_are_distinct() {
    assert_eq!(VALVE_COUNT, 22);
    let mut seen = vec![false; VALVE_COUNT];
    for i in 0..TANK_COUNT {
        let (a, b) = tank_inlet_valves(tank_from_usize(i));
        for v in [a, b] {
            let k = valve_into_usize(v);
            assert!(k < VALVE_COUNT);
            assert!(!seen[k]);
            seen[k] = true;
        }
    }
    assert!(seen.iter().all(|s| *s));
    assert_eq!(
        tank_inlet_valves(A380FuelTankType::Trim),
        (A380FuelValve::TrimTankInletValve1, A380FuelValve::TrimTankInletValve2)
    );
}

#[test]
fn tank_lists() {
    assert_eq!(
        feed_tank_list(),
        vec![
            A380FuelTankType::FeedOne,
            A380FuelTankType::FeedTwo,
            A380FuelTankType::FeedThree,
            A380FuelTankType::FeedFour
        ]
    );
    assert_eq!(inner_tank_list(), vec![A380FuelTankType::LeftInner, A380FuelTankType::RightInner]);
    assert_eq!(mid_tank_list(), vec![A380FuelTankType::LeftMid, A380FuelTankType::RightMid]);
    assert_eq!(outer_tank_list(), vec![A380FuelTankType::LeftOuter, A380FuelTankType::RightOuter]);
}
