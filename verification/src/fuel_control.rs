//! Fuel control: which pumps should run and which valves should open for the transfers
//! the galleries are set up for.
use vstd::prelude::*;

use crate::fuel::{
    lemma_pump_index_bounds, lemma_pump_index_injective, lemma_pump_listed_for_its_tank,
    lemma_tank_index_bounds, lemma_tank_index_injective, lemma_tank_pumps_draw_from_tank,
    lemma_valve_index_bounds, pump_index, pump_into_usize, pump_tank_spec, tank_at,
    tank_from_usize, tank_index, tank_pumps, tank_pumps_spec, valve_index, valve_into_usize,
    A380FuelPump, A380FuelTankType, A380FuelValve, PUMP_COUNT, TANK_COUNT, VALVE_COUNT,
};
use crate::fuel_transfer::{TankMode, TransferGalleryTankConnections};

verus! {

broadcast use {lemma_pump_index_bounds, lemma_tank_index_bounds, lemma_valve_index_bounds};

/// The tank is connected as a source to the forward or to the aft gallery.
pub open spec fn is_source_tank(
    forward: Seq<Option<TankMode>>,
    aft: Seq<Option<TankMode>>,
    tank: A380FuelTankType,
) -> bool {
    forward[tank_index(tank)] == Some(TankMode::Source) || aft[tank_index(tank)] == Some(
        TankMode::Source,
    )
}

/// The fuel control partition: the pump run requests and valve open requests it issues.
pub struct FuelControlApplication {
    fuel_pump_requested_running: Vec<bool>,
    fuel_valve_requested_open: Vec<bool>,
}

impl FuelControlApplication {
    pub closed spec fn pump_requested(&self, pump: A380FuelPump) -> bool {
        self.fuel_pump_requested_running@[pump_index(pump)]
    }

    pub closed spec fn valve_requested(&self, valve: A380FuelValve) -> bool {
        self.fuel_valve_requested_open@[valve_index(valve)]
    }

    pub closed spec fn wf(&self) -> bool {
        self.fuel_pump_requested_running@.len() == PUMP_COUNT
            && self.fuel_valve_requested_open@.len() == VALVE_COUNT
    }

    /// No pump requested to run, no valve requested open.
    pub fn new() -> (r: Self)
        ensures
            r.wf(),
            forall|p: A380FuelPump| !#[trigger] r.pump_requested(p),
            forall|v: A380FuelValve| !#[trigger] r.valve_requested(v),
    {
        FuelControlApplication {
            fuel_pump_requested_running: all_false(PUMP_COUNT),
            fuel_valve_requested_open: all_false(VALVE_COUNT),
        }
    }

    /// Recomputes the requests from the gallery connections: all previous requests are
    /// dropped, and both pumps of every tank connected as a source (to either gallery)
    /// are requested to run. No inlet valve is requested open.
    pub fn update(&mut self, gallery_connections: &TransferGalleryTankConnections)
        requires
            gallery_connections.wf(),
        ensures
            final(self).wf(),
            forall|p: A380FuelPump|
                #[trigger] final(self).pump_requested(p) == is_source_tank(
                    gallery_connections.forward_gallery@,
                    gallery_connections.aft_gallery@,
                    pump_tank_spec(p),
                ),
            forall|v: A380FuelValve| !#[trigger] final(self).valve_requested(v),
    {
        self.fuel_pump_requested_running = all_false(PUMP_COUNT);
        self.fuel_valve_requested_open = all_false(VALVE_COUNT);
        let ghost fwd = gallery_connections.forward_gallery@;
        let ghost aft = gallery_connections.aft_gallery@;
        let mut i: usize = 0;
        while i < TANK_COUNT
            invariant
                i <= TANK_COUNT,
                gallery_connections.wf(),
                fwd == gallery_connections.forward_gallery@,
                aft == gallery_connections.aft_gallery@,
                self.wf(),
                forall|v: A380FuelValve| !#[trigger] self.valve_requested(v),
                forall|p: A380FuelPump|
                    #[trigger] self.pump_requested(p) == (tank_index(pump_tank_spec(p)) < i
                        && is_source_tank(fwd, aft, pump_tank_spec(p))),
            decreases TANK_COUNT - i,
        {
            let tank = tank_from_usize(i);
            let is_source = match (gallery_connections.forward_gallery[i], gallery_connections.aft_gallery[i]) {
                (Some(TankMode::Source), _) => true,
                (_, Some(TankMode::Source)) => true,
                _ => false,
            };
            let ghost old_self = *self;
            let ghost before = self.fuel_pump_requested_running@;
            let ghost valves = self.fuel_valve_requested_open@;
            assert(is_source == is_source_tank(fwd, aft, tank));
            if is_source {
                let (left_pump, right_pump) = tank_pumps(tank);
                let li = pump_into_usize(left_pump);
                let ri = pump_into_usize(right_pump);
                self.fuel_pump_requested_running.set(li, true);
                self.fuel_pump_requested_running.set(ri, true);
                assert(self.fuel_pump_requested_running@ == before.update(li as int, true).update(ri as int, true));
            } else {
                assert(self.fuel_pump_requested_running@ == before);
            }
            assert(self.fuel_valve_requested_open@ == valves);
            proof {
                assert forall|v: A380FuelValve| !#[trigger] self.valve_requested(v) by {
                    assert(!old_self.valve_requested(v));
                }
                lemma_tank_pumps_draw_from_tank(tank);
                assert forall|p: A380FuelPump|
                    #[trigger] self.pump_requested(p) == (tank_index(pump_tank_spec(p)) < i + 1
                        && is_source_tank(fwd, aft, pump_tank_spec(p))) by {
                    assert(old_self.pump_requested(p) == (tank_index(pump_tank_spec(p)) < i
                        && is_source_tank(fwd, aft, pump_tank_spec(p))));
                    lemma_pump_listed_for_its_tank(p);
                    lemma_tank_index_injective(pump_tank_spec(p), tank);
                    lemma_pump_index_injective(p, tank_pumps_spec(tank).0);
                    lemma_pump_index_injective(p, tank_pumps_spec(tank).1);
                    if pump_tank_spec(p) == tank {
                        assert(p == tank_pumps_spec(tank).0 || p == tank_pumps_spec(tank).1);
                    } else {
                        assert(pump_index(p) != pump_index(tank_pumps_spec(tank).0));
                        assert(pump_index(p) != pump_index(tank_pumps_spec(tank).1));
                        assert(self.fuel_pump_requested_running@[pump_index(p)] == before[pump_index(p)]);
                    }
                }
            }
            i = i + 1;
        }
    }

    pub fn is_pump_requested_running(&self, pump: A380FuelPump) -> (r: bool)
        requires
            self.wf(),
        ensures
            r == self.pump_requested(pump),
    {
        self.fuel_pump_requested_running[pump_into_usize(pump)]
    }

    pub fn is_valve_requested_open(&self, valve: A380FuelValve) -> (r: bool)
        requires
            self.wf(),
        ensures
            r == self.valve_requested(valve),
    {
        self.fuel_valve_requested_open[valve_into_usize(valve)]
    }
}

fn all_false(n: usize) -> (r: Vec<bool>)
    ensures
        r@.len() == n,
        forall|i: int| 0 <= i < n ==> !#[trigger] r@[i],
{
    let mut r: Vec<bool> = Vec::new();
    let mut i: usize = 0;
    while i < n
        invariant
            i <= n,
            r@.len() == i,
            forall|k: int| 0 <= k < i ==> !#[trigger] r@[k],
        decreases n - i,
    {
        r.push(false);
        i = i + 1;
    }
    r
}

} // verus!
