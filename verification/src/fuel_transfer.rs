//! Fuel transfer: the two transfer galleries, the tank quantities the transfer logic
//! reads, and the load alleviation transfers.
use vstd::prelude::*;

use crate::float_bits::{f64_lt, f64_max_spec, lt, max};
use crate::fuel::{
    feed_tank_list, feed_tanks, inner_tank_list, inner_tanks, lemma_tank_index_bounds,
    mid_tank_list, mid_tanks, outer_tank_list, outer_tanks, tank_index, tank_into_usize,
    A380FuelTankType, TANK_COUNT,
};

verus! {

broadcast use lemma_tank_index_bounds;

/// The role of a tank connected to a transfer gallery.
#[derive(Clone, Copy, PartialEq, Eq, Structural, Debug)]
pub enum TankMode {
    Source,
    Target,
}

/// `modes` applied in order to a gallery: each pair connects its tank in its mode; a
/// later pair for the same tank wins.
pub open spec fn apply_modes(
    gallery: Seq<Option<TankMode>>,
    modes: Seq<(A380FuelTankType, TankMode)>,
) -> Seq<Option<TankMode>>
    decreases modes.len(),
{
    if modes.len() == 0 {
        gallery
    } else {
        apply_modes(gallery, modes.drop_last()).update(
            tank_index(modes.last().0),
            Some(modes.last().1),
        )
    }
}

/// No tank is connected to the gallery.
pub open spec fn gallery_unused(gallery: Seq<Option<TankMode>>) -> bool {
    forall|i: int| 0 <= i < gallery.len() ==> #[trigger] gallery[i] is None
}

/// The tank connections of the forward and aft transfer galleries: for each tank (by
/// `tank_index`) its mode, or `None` when it is not connected.
pub struct TransferGalleryTankConnections {
    pub forward_gallery: Vec<Option<TankMode>>,
    pub aft_gallery: Vec<Option<TankMode>>,
}

impl TransferGalleryTankConnections {
    /// One entry per tank in each gallery.
    pub open spec fn wf(&self) -> bool {
        self.forward_gallery@.len() == TANK_COUNT && self.aft_gallery@.len() == TANK_COUNT
    }

    /// No tank connected to either gallery.
    pub fn new() -> (r: Self)
        ensures
            r.wf(),
            gallery_unused(r.forward_gallery@),
            gallery_unused(r.aft_gallery@),
    {
        let mut forward: Vec<Option<TankMode>> = Vec::new();
        let mut aft: Vec<Option<TankMode>> = Vec::new();
        let mut i: usize = 0;
        while i < TANK_COUNT
            invariant
                i <= TANK_COUNT,
                forward@.len() == i,
                aft@.len() == i,
                gallery_unused(forward@),
                gallery_unused(aft@),
            decreases TANK_COUNT - i,
        {
            forward.push(None);
            aft.push(None);
            i = i + 1;
        }
        TransferGalleryTankConnections { forward_gallery: forward, aft_gallery: aft }
    }

    /// The forward gallery can be used: no transfer has claimed it yet.
    pub fn is_forward_gallery_usable(&self) -> (r: bool)
        ensures
            r == gallery_unused(self.forward_gallery@),
    {
        gallery_is_unused(&self.forward_gallery)
    }

    /// The aft gallery can be used: no transfer has claimed it yet.
    pub fn is_aft_gallery_usable(&self) -> (r: bool)
        ensures
            r == gallery_unused(self.aft_gallery@),
    {
        gallery_is_unused(&self.aft_gallery)
    }

    /// Connects tanks to the forward gallery in the given modes.
    pub fn set_forward_gallery_modes(&mut self, modes: &Vec<(A380FuelTankType, TankMode)>)
        requires
            old(self).wf(),
        ensures
            final(self).wf(),
            final(self).forward_gallery@ == apply_modes(old(self).forward_gallery@, modes@),
            final(self).aft_gallery@ == old(self).aft_gallery@,
    {
        apply_gallery_modes(&mut self.forward_gallery, modes);
    }

    /// Connects tanks to the aft gallery in the given modes.
    pub fn set_aft_gallery_modes(&mut self, modes: &Vec<(A380FuelTankType, TankMode)>)
        requires
            old(self).wf(),
        ensures
            final(self).wf(),
            final(self).aft_gallery@ == apply_modes(old(self).aft_gallery@, modes@),
            final(self).forward_gallery@ == old(self).forward_gallery@,
    {
        apply_gallery_modes(&mut self.aft_gallery, modes);
    }
}

fn gallery_is_unused(gallery: &Vec<Option<TankMode>>) -> (r: bool)
    ensures
        r == gallery_unused(gallery@),
{
    let mut i: usize = 0;
    while i < gallery.len()
        invariant
            i <= gallery.len(),
            forall|k: int| 0 <= k < i ==> #[trigger] gallery@[k] is None,
        decreases gallery.len() - i,
    {
        if gallery[i].is_some() {
            return false;
        }
        i = i + 1;
    }
    true
}

fn apply_gallery_modes(gallery: &mut Vec<Option<TankMode>>, modes: &Vec<(A380FuelTankType, TankMode)>)
    requires
        old(gallery)@.len() == TANK_COUNT,
    ensures
        final(gallery)@ == apply_modes(old(gallery)@, modes@),
        final(gallery)@.len() == TANK_COUNT,
{
    let ghost start = gallery@;
    let mut i: usize = 0;
    while i < modes.len()
        invariant
            i <= modes.len(),
            gallery@ == apply_modes(start, modes@.take(i as int)),
            gallery@.len() == TANK_COUNT,
        decreases modes.len() - i,
    {
        let (tank, mode) = modes[i];
        let idx = tank_into_usize(tank);
        gallery.set(idx, Some(mode));
        let ghost next = modes@.take(i + 1);
        assert(next.drop_last() =~= modes@.take(i as int));
        i = i + 1;
        assert(gallery@ =~= apply_modes(start, next));
    }
    assert(modes@.take(modes.len() as int) =~= modes@);
}

/// What the transfer logic reads of the tanks: per tank (by `tank_index`) its quantity in
/// pounds (a double's bit pattern) and whether it is full or empty.
pub struct TankQuantities {
    pub quantities_lb: Vec<u64>,
    pub full: Vec<bool>,
    pub empty: Vec<bool>,
}

/// Every tank of `tanks` is marked in `flags`.
pub open spec fn all_marked(flags: Seq<bool>, tanks: Seq<A380FuelTankType>) -> bool {
    forall|i: int| 0 <= i < tanks.len() ==> flags[tank_index(#[trigger] tanks[i])]
}

impl TankQuantities {
    pub open spec fn wf(&self) -> bool {
        &&& self.quantities_lb@.len() == TANK_COUNT
        &&& self.full@.len() == TANK_COUNT
        &&& self.empty@.len() == TANK_COUNT
    }

    pub fn get_tank_quantity(&self, tank: A380FuelTankType) -> (r: u64)
        requires
            self.wf(),
        ensures
            r == self.quantities_lb@[tank_index(tank)],
    {
        self.quantities_lb[tank_into_usize(tank)]
    }

    pub fn tank_full(&self, tank: A380FuelTankType) -> (r: bool)
        requires
            self.wf(),
        ensures
            r == self.full@[tank_index(tank)],
    {
        self.full[tank_into_usize(tank)]
    }

    pub fn tank_empty(&self, tank: A380FuelTankType) -> (r: bool)
        requires
            self.wf(),
        ensures
            r == self.empty@[tank_index(tank)],
    {
        self.empty[tank_into_usize(tank)]
    }

    /// All of `tanks` are full.
    pub fn tanks_full(&self, tanks: &Vec<A380FuelTankType>) -> (r: bool)
        requires
            self.wf(),
        ensures
            r == all_marked(self.full@, tanks@),
    {
        all_flagged(&self.full, tanks)
    }

    /// All of `tanks` are empty.
    pub fn tanks_empty(&self, tanks: &Vec<A380FuelTankType>) -> (r: bool)
        requires
            self.wf(),
        ensures
            r == all_marked(self.empty@, tanks@),
    {
        all_flagged(&self.empty, tanks)
    }
}

fn all_flagged(flags: &Vec<bool>, tanks: &Vec<A380FuelTankType>) -> (r: bool)
    requires
        flags@.len() == TANK_COUNT,
    ensures
        r == all_marked(flags@, tanks@),
{
    let mut i: usize = 0;
    while i < tanks.len()
        invariant
            flags@.len() == TANK_COUNT,
            i <= tanks.len(),
            forall|k: int| 0 <= k < i ==> flags@[tank_index(#[trigger] tanks@[k])],
        decreases tanks.len() - i,
    {
        if !flags[tank_into_usize(tanks[i])] {
            return false;
        }
        i = i + 1;
    }
    true
}


/// 110 200 lb: above this much fuel on board, fuel is moved into the outer tanks in flight.
pub const OUTER_TANK_FILL_MIN_FUEL_LB: u64 = 0x40FA_E780_0000_0000u64;

/// 8 800 lb: an outer tank only gives fuel while it holds more than this.
pub const OUTER_TANK_TRANSFER_MIN_LB: u64 = 0x40C1_3000_0000_0000u64;

/// 25 500 ft in metres (25500 * 0.3048 as a double): the altitude the flight must have
/// exceeded before a descent starts the load alleviation transfers.
pub const DESCENT_ARM_ALTITUDE_M: u64 = 0x40BE_5C66_6666_6667u64;

/// 24 500 ft in metres (24500 * 0.3048 as a double): below this, after having been above
/// `DESCENT_ARM_ALTITUDE_M`, the load alleviation transfers start.
pub const DESCENT_TRIGGER_ALTITUDE_M: u64 = 0x40BD_2B99_9999_999Au64;

/// 80 min: the trim tank forward transfer runs while at most this much flight time remains.
pub const TRIM_TANK_FWD_TRANSFER_STOP_NS: u128 = 4_800_000_000_000u128;

/// 78 min: the trim tank forward transfer starts when less flight time remains.
pub const TRIM_TANK_FWD_TRANSFER_START_NS: u128 = 4_680_000_000_000u128;

/// 30 min: transfers out of the outer tanks run while at most this much time remains.
pub const TRANSFER_FROM_OUTER_STOP_NS: u128 = 1_800_000_000_000u128;

/// 28 min: transfers out of the outer tanks start when less flight time remains.
pub const TRANSFER_FROM_OUTER_START_NS: u128 = 1_680_000_000_000u128;

/// The highest altitude reached in flight (reset to zero on the ground).
pub open spec fn next_max_altitude(prev: u64, in_flight: bool, altitude: Option<u64>) -> u64 {
    if in_flight {
        f64_max_spec(prev, match altitude { Some(a) => a, None => 0u64 })
    } else {
        0u64
    }
}

/// A descent below the trigger altitude after having been above the arming altitude.
pub open spec fn descent_started(max_altitude: u64, altitude: Option<u64>) -> bool {
    f64_lt(DESCENT_ARM_ALTITUDE_M, max_altitude) && match altitude {
        Some(a) => f64_lt(a, DESCENT_TRIGGER_ALTITUDE_M),
        None => false,
    }
}

/// Fuel is moved into an outer tank while in flight, with more than the threshold on
/// board, and the tank not full.
pub open spec fn transfer_to_outer_next(total_fuel_lb: u64, in_flight: bool, tank_full: bool) -> bool {
    f64_lt(OUTER_TANK_FILL_MIN_FUEL_LB, total_fuel_lb) && in_flight && !tank_full
}

/// Transfer out of an outer tank: only while it holds more than the minimum; once running
/// it continues while at most 30 min remain; otherwise it starts with less than 28 min
/// remaining or at the start of the descent.
pub open spec fn transfer_from_outer_next(
    active: bool,
    quantity_lb: u64,
    remaining_ns: Option<u128>,
    max_altitude: u64,
    altitude: Option<u64>,
) -> bool {
    f64_lt(OUTER_TANK_TRANSFER_MIN_LB, quantity_lb) && if active {
        match remaining_ns {
            Some(d) => d <= TRANSFER_FROM_OUTER_STOP_NS,
            None => false,
        }
    } else {
        (match remaining_ns {
            Some(d) => d < TRANSFER_FROM_OUTER_START_NS,
            None => false,
        }) || descent_started(max_altitude, altitude)
    }
}

/// Trim tank forward transfer: never with an empty or isolated trim tank; once running it
/// continues unless more than 80 min are known to remain; otherwise it starts with less
/// than 78 min remaining or at the start of the descent.
pub open spec fn trim_transfer_next(
    active: bool,
    trim_empty: bool,
    remaining_ns: Option<u128>,
    max_altitude: u64,
    altitude: Option<u64>,
    trim_isolated: bool,
) -> bool {
    if active {
        !trim_empty && match remaining_ns {
            Some(d) => d <= TRIM_TANK_FWD_TRANSFER_STOP_NS,
            None => true,
        } && !trim_isolated
    } else {
        !trim_empty && !trim_isolated && ((match remaining_ns {
            Some(d) => d < TRIM_TANK_FWD_TRANSFER_START_NS,
            None => false,
        }) || descent_started(max_altitude, altitude))
    }
}

/// The load alleviation state after one update from `o`, given the tank quantities
/// (pounds), full and empty flags, the fuel on board, the remaining flight time, whether
/// in flight, whether the trim tank feed is isolated, and the altitude. The highest
/// altitude is updated first and the decisions use the updated value.
pub open spec fn load_alleviation_next(
    o: LoadAlleviationState,
    quantities: Seq<u64>,
    full: Seq<bool>,
    empty: Seq<bool>,
    total_fuel_lb: u64,
    remaining_ns: Option<u128>,
    in_flight: bool,
    trim_isolated: bool,
    altitude: Option<u64>,
) -> LoadAlleviationState {
    let max_alt = next_max_altitude(o.max_altitude, in_flight, altitude);
    LoadAlleviationState {
        max_altitude: max_alt,
        to_outer: (
            transfer_to_outer_next(total_fuel_lb, in_flight, full[tank_index(A380FuelTankType::LeftOuter)]),
            transfer_to_outer_next(total_fuel_lb, in_flight, full[tank_index(A380FuelTankType::RightOuter)]),
        ),
        from_outer: (
            transfer_from_outer_next(
                o.from_outer.0,
                quantities[tank_index(A380FuelTankType::LeftOuter)],
                remaining_ns,
                max_alt,
                altitude,
            ),
            transfer_from_outer_next(
                o.from_outer.1,
                quantities[tank_index(A380FuelTankType::RightOuter)],
                remaining_ns,
                max_alt,
                altitude,
            ),
        ),
        trim_forward: trim_transfer_next(
            o.trim_forward,
            empty[tank_index(A380FuelTankType::Trim)],
            remaining_ns,
            max_alt,
            altitude,
            trim_isolated,
        ),
    }
}

/// A gallery with no tank connected.
pub open spec fn unused_gallery() -> Seq<Option<TankMode>> {
    Seq::new(TANK_COUNT as nat, |i: int| None)
}

/// The galleries the load alleviation transfers in state `s` claim, starting from two
/// unused galleries: (forward, aft).
pub open spec fn load_alleviation_galleries(s: LoadAlleviationState, full: Seq<bool>, empty: Seq<bool>) -> (
    Seq<Option<TankMode>>,
    Seq<Option<TankMode>>,
) {
    (
        match forward_gallery_request(s, full, empty) {
            Some(m) => apply_modes(unused_gallery(), m),
            None => unused_gallery(),
        },
        if s.trim_forward {
            apply_modes(unused_gallery(), aft_gallery_request(full))
        } else {
            unused_gallery()
        },
    )
}

/// The abstract state of the load alleviation transfers.
pub struct LoadAlleviationState {
    pub to_outer: (bool, bool),
    pub from_outer: (bool, bool),
    pub trim_forward: bool,
    pub max_altitude: u64,
}

/// Load alleviation transfers: filling the outer tanks, emptying them near the end of the
/// flight, and moving trim tank fuel forward.
pub struct LoadAlleviationTransfer {
    transfer_to_outer_tank_active: [bool; 2],
    transfer_from_outer_tank_active: [bool; 2],
    trim_tank_forward_transfer_active: bool,
    max_altitude_reached: u64,
}

/// The tanks of `tanks` that are not full, each as a target.
pub open spec fn not_full_targets(tanks: Seq<A380FuelTankType>, full: Seq<bool>) -> Seq<(A380FuelTankType, TankMode)>
    decreases tanks.len(),
{
    if tanks.len() == 0 {
        Seq::empty()
    } else {
        let prev = not_full_targets(tanks.drop_last(), full);
        if !full[tank_index(tanks.last())] {
            prev.push((tanks.last(), TankMode::Target))
        } else {
            prev
        }
    }
}

/// The outer tanks whose flag is set, each in `mode`.
pub open spec fn flagged_outer(flags: (bool, bool), mode: TankMode) -> Seq<(A380FuelTankType, TankMode)> {
    let left = if flags.0 { seq![(A380FuelTankType::LeftOuter, mode)] } else { Seq::empty() };
    let right = if flags.1 { seq![(A380FuelTankType::RightOuter, mode)] } else { Seq::empty() };
    left + right
}

/// All of `tanks`, each as a source.
pub open spec fn all_sources(tanks: Seq<A380FuelTankType>) -> Seq<(A380FuelTankType, TankMode)> {
    tanks.map_values(|t: A380FuelTankType| (t, TankMode::Source))
}

/// The forward gallery assignment of the load alleviation transfers, if any: emptying the
/// outer tanks into the first of feed, mid, inner tanks that are not all full (taking the
/// tanks that are not full), or else filling the outer tanks from the inner tanks (the
/// mid tanks when the inner tanks are all empty).
pub open spec fn forward_gallery_request(s: LoadAlleviationState, full: Seq<bool>, empty: Seq<bool>) -> Option<
    Seq<(A380FuelTankType, TankMode)>,
> {
    if s.from_outer.0 || s.from_outer.1 {
        let targets = if !all_marked(full, feed_tanks()) {
            feed_tanks()
        } else if !all_marked(full, mid_tanks()) {
            mid_tanks()
        } else {
            inner_tanks()
        };
        Some(flagged_outer(s.from_outer, TankMode::Source) + not_full_targets(targets, full))
    } else if s.to_outer.0 || s.to_outer.1 {
        let sources = if !all_marked(empty, inner_tanks()) {
            inner_tanks()
        } else {
            mid_tanks()
        };
        Some(flagged_outer(s.to_outer, TankMode::Target) + all_sources(sources))
    } else {
        None
    }
}

/// Applying two lists of modes one after the other is applying their concatenation.
proof fn lemma_apply_modes_concat(
    gallery: Seq<Option<TankMode>>,
    a: Seq<(A380FuelTankType, TankMode)>,
    b: Seq<(A380FuelTankType, TankMode)>,
)
    ensures
        apply_modes(gallery, a + b) == apply_modes(apply_modes(gallery, a), b),
    decreases b.len(),
{
    if b.len() > 0 {
        assert((a + b).drop_last() =~= a + b.drop_last());
        lemma_apply_modes_concat(gallery, a, b.drop_last());
    } else {
        assert(a + b =~= a);
    }
}

/// Applying no mode leaves the gallery as it is; applying one sets that tank's entry.
proof fn lemma_apply_modes_short(gallery: Seq<Option<TankMode>>, modes: Seq<(A380FuelTankType, TankMode)>)
    requires
        modes.len() <= 1,
    ensures
        modes.len() == 0 ==> apply_modes(gallery, modes) == gallery,
        modes.len() == 1 ==> apply_modes(gallery, modes) == gallery.update(tank_index(modes[0].0), Some(modes[0].1)),
{
    if modes.len() == 1 {
        assert(modes.drop_last() =~= Seq::<(A380FuelTankType, TankMode)>::empty());
        assert(apply_modes(gallery, modes.drop_last()) == gallery);
        assert(modes.last() == modes[0]);
    }
}

/// While the outer tanks are being emptied and all four feed tanks are full but some mid
/// tank is not, the forward gallery (claimed when unused) takes each emptying outer tank as
/// a source and each mid tank that is not full as a target; a full mid tank, the inner
/// tanks, the feed tanks and the trim tank stay unconnected.
pub proof fn lemma_outer_emptying_fills_mid_tanks(
    s: LoadAlleviationState,
    full: Seq<bool>,
    empty: Seq<bool>,
    gallery: Seq<Option<TankMode>>,
)
    requires
        s.from_outer.0 || s.from_outer.1,
        full.len() == TANK_COUNT,
        gallery.len() == TANK_COUNT,
        gallery_unused(gallery),
        full[tank_index(A380FuelTankType::FeedOne)],
        full[tank_index(A380FuelTankType::FeedTwo)],
        full[tank_index(A380FuelTankType::FeedThree)],
        full[tank_index(A380FuelTankType::FeedFour)],
        !full[tank_index(A380FuelTankType::LeftMid)] || !full[tank_index(A380FuelTankType::RightMid)],
    ensures
        forward_gallery_request(s, full, empty) is Some,
        ({
            let g = apply_modes(gallery, forward_gallery_request(s, full, empty)->0);
            &&& g[tank_index(A380FuelTankType::LeftMid)] == if full[tank_index(A380FuelTankType::LeftMid)] {
                None
            } else {
                Some(TankMode::Target)
            }
            &&& g[tank_index(A380FuelTankType::RightMid)] == if full[tank_index(A380FuelTankType::RightMid)] {
                None
            } else {
                Some(TankMode::Target)
            }
            &&& g[tank_index(A380FuelTankType::LeftOuter)] == if s.from_outer.0 {
                Some(TankMode::Source)
            } else {
                None
            }
            &&& g[tank_index(A380FuelTankType::RightOuter)] == if s.from_outer.1 {
                Some(TankMode::Source)
            } else {
                None
            }
            &&& g[tank_index(A380FuelTankType::LeftInner)] is None
            &&& g[tank_index(A380FuelTankType::RightInner)] is None
            &&& g[tank_index(A380FuelTankType::FeedOne)] is None
            &&& g[tank_index(A380FuelTankType::FeedTwo)] is None
            &&& g[tank_index(A380FuelTankType::FeedThree)] is None
            &&& g[tank_index(A380FuelTankType::FeedFour)] is None
            &&& g[tank_index(A380FuelTankType::Trim)] is None
        }),
{
    let feed = feed_tanks();
    assert(all_marked(full, feed)) by {
        assert forall|i: int| 0 <= i < feed.len() implies full[tank_index(#[trigger] feed[i])] by {
            if i == 0 {
            } else if i == 1 {
            } else if i == 2 {
            } else {
            }
        }
    }
    let mid = mid_tanks();
    let t_lm = A380FuelTankType::LeftMid;
    let t_rm = A380FuelTankType::RightMid;
    assert(!all_marked(full, mid)) by {
        if !full[tank_index(t_lm)] {
            assert(!full[tank_index(mid[0])]);
        } else {
            assert(!full[tank_index(mid[1])]);
        }
    }
    let lo: Seq<(A380FuelTankType, TankMode)> = if s.from_outer.0 {
        seq![(A380FuelTankType::LeftOuter, TankMode::Source)]
    } else {
        Seq::empty()
    };
    let ro: Seq<(A380FuelTankType, TankMode)> = if s.from_outer.1 {
        seq![(A380FuelTankType::RightOuter, TankMode::Source)]
    } else {
        Seq::empty()
    };
    let lm: Seq<(A380FuelTankType, TankMode)> = if !full[tank_index(t_lm)] {
        seq![(t_lm, TankMode::Target)]
    } else {
        Seq::empty()
    };
    let rm: Seq<(A380FuelTankType, TankMode)> = if !full[tank_index(t_rm)] {
        seq![(t_rm, TankMode::Target)]
    } else {
        Seq::empty()
    };
    assert(mid.drop_last() =~= seq![t_lm]);
    assert(mid.drop_last().drop_last() =~= Seq::<A380FuelTankType>::empty());
    assert(not_full_targets(mid.drop_last().drop_last(), full) =~= Seq::empty());
    assert(not_full_targets(mid.drop_last(), full) =~= lm);
    assert(not_full_targets(mid, full) =~= lm + rm);
    let m = forward_gallery_request(s, full, empty)->0;
    assert(m == lo + ro + (lm + rm));
    assert(lo + ro + (lm + rm) =~= lo + ro + lm + rm);
    lemma_apply_modes_concat(gallery, lo + ro + lm, rm);
    lemma_apply_modes_concat(gallery, lo + ro, lm);
    lemma_apply_modes_concat(gallery, lo, ro);
    lemma_apply_modes_short(gallery, lo);
    lemma_apply_modes_short(apply_modes(gallery, lo), ro);
    lemma_apply_modes_short(apply_modes(gallery, lo + ro), lm);
    lemma_apply_modes_short(apply_modes(gallery, lo + ro + lm), rm);
    assert(gallery[tank_index(A380FuelTankType::LeftInner)] is None);
    assert(gallery[tank_index(A380FuelTankType::RightInner)] is None);
    assert(gallery[tank_index(A380FuelTankType::FeedOne)] is None);
    assert(gallery[tank_index(A380FuelTankType::FeedTwo)] is None);
    assert(gallery[tank_index(A380FuelTankType::FeedThree)] is None);
    assert(gallery[tank_index(A380FuelTankType::FeedFour)] is None);
    assert(gallery[tank_index(A380FuelTankType::Trim)] is None);
    assert(gallery[tank_index(t_lm)] is None);
    assert(gallery[tank_index(t_rm)] is None);
    assert(gallery[tank_index(A380FuelTankType::LeftOuter)] is None);
    assert(gallery[tank_index(A380FuelTankType::RightOuter)] is None);
}

/// The aft gallery assignment of the trim tank forward transfer: the trim tank as source;
/// as targets the feed tanks that are not full, or, when all feed tanks are full, the mid
/// tanks that are not full if some inner tank is not full, else the inner tanks that are
/// not full.
pub open spec fn aft_gallery_request(full: Seq<bool>) -> Seq<(A380FuelTankType, TankMode)> {
    let targets = if !all_marked(full, feed_tanks()) {
        feed_tanks()
    } else if !all_marked(full, inner_tanks()) {
        mid_tanks()
    } else {
        inner_tanks()
    };
    seq![(A380FuelTankType::Trim, TankMode::Source)] + not_full_targets(targets, full)
}

fn push_not_full_targets(
    out: &mut Vec<(A380FuelTankType, TankMode)>,
    tanks: &Vec<A380FuelTankType>,
    quantities: &TankQuantities,
)
    requires
        quantities.wf(),
    ensures
        final(out)@ == old(out)@ + not_full_targets(tanks@, quantities.full@),
{
    let ghost start = out@;
    let mut i: usize = 0;
    while i < tanks.len()
        invariant
            quantities.wf(),
            i <= tanks.len(),
            out@ == start + not_full_targets(tanks@.take(i as int), quantities.full@),
        decreases tanks.len() - i,
    {
        let tank = tanks[i];
        let ghost next = tanks@.take(i + 1);
        assert(next.drop_last() =~= tanks@.take(i as int));
        if !quantities.tank_full(tank) {
            out.push((tank, TankMode::Target));
        }
        i = i + 1;
        assert(out@ =~= start + not_full_targets(next, quantities.full@));
    }
    assert(tanks@.take(tanks.len() as int) =~= tanks@);
}

fn push_flagged_outer(out: &mut Vec<(A380FuelTankType, TankMode)>, flags: [bool; 2], mode: TankMode)
    ensures
        final(out)@ == old(out)@ + flagged_outer((flags@[0], flags@[1]), mode),
{
    let ghost start = out@;
    if flags[0] {
        out.push((A380FuelTankType::LeftOuter, mode));
    }
    if flags[1] {
        out.push((A380FuelTankType::RightOuter, mode));
    }
    assert(out@ =~= start + flagged_outer((flags@[0], flags@[1]), mode));
}

impl LoadAlleviationTransfer {
    pub closed spec fn view(&self) -> LoadAlleviationState {
        LoadAlleviationState {
            to_outer: (self.transfer_to_outer_tank_active@[0], self.transfer_to_outer_tank_active@[1]),
            from_outer: (
                self.transfer_from_outer_tank_active@[0],
                self.transfer_from_outer_tank_active@[1],
            ),
            trim_forward: self.trim_tank_forward_transfer_active,
            max_altitude: self.max_altitude_reached,
        }
    }

    /// No transfer active and no altitude reached.
    pub fn new() -> (r: Self)
        ensures
            r.view() == (LoadAlleviationState {
                to_outer: (false, false),
                from_outer: (false, false),
                trim_forward: false,
                max_altitude: 0u64,
            }),
    {
        LoadAlleviationTransfer {
            transfer_to_outer_tank_active: [false, false],
            transfer_from_outer_tank_active: [false, false],
            trim_tank_forward_transfer_active: false,
            max_altitude_reached: 0u64,
        }
    }

    /// Advances the transfer states by one update. `total_fuel_on_board_lb` is in pounds,
    /// `altitude_m` in metres (bit patterns of doubles), `remaining_flight_time_ns` in
    /// nanoseconds. The highest altitude is updated first and the outer and trim decisions
    /// use the updated value.
    pub fn update(
        &mut self,
        tank_quantities: &TankQuantities,
        total_fuel_on_board_lb: u64,
        remaining_flight_time_ns: Option<u128>,
        in_flight: bool,
        trim_tank_feed_isolated: bool,
        altitude_m: Option<u64>,
    )
        requires
            tank_quantities.wf(),
        ensures
            final(self).view() == load_alleviation_next(
                old(self).view(),
                tank_quantities.quantities_lb@,
                tank_quantities.full@,
                tank_quantities.empty@,
                total_fuel_on_board_lb,
                remaining_flight_time_ns,
                in_flight,
                trim_tank_feed_isolated,
                altitude_m,
            ),
    {
        self.max_altitude_reached = if in_flight {
            let a = match altitude_m {
                Some(a) => a,
                None => 0u64,
            };
            max(self.max_altitude_reached, a)
        } else {
            0u64
        };
        self.update_transfer_to_outer_tanks(tank_quantities, total_fuel_on_board_lb, in_flight);
        self.update_transfer_from_outer_tanks(tank_quantities, remaining_flight_time_ns, altitude_m);
        self.update_transfer_from_trim_tank(
            tank_quantities,
            remaining_flight_time_ns,
            altitude_m,
            trim_tank_feed_isolated,
        );
    }

    pub fn is_transfer_to_outer_tank_active(&self) -> (r: bool)
        ensures
            r == (self.view().to_outer.0 || self.view().to_outer.1),
    {
        self.transfer_to_outer_tank_active[0] || self.transfer_to_outer_tank_active[1]
    }

    pub fn is_transfer_from_outer_tank_active(&self) -> (r: bool)
        ensures
            r == (self.view().from_outer.0 || self.view().from_outer.1),
    {
        self.transfer_from_outer_tank_active[0] || self.transfer_from_outer_tank_active[1]
    }

    pub fn is_trim_tank_forward_transfer_active(&self) -> (r: bool)
        ensures
            r == self.view().trim_forward,
    {
        self.trim_tank_forward_transfer_active
    }

    fn update_transfer_to_outer_tanks(
        &mut self,
        tank_quantities: &TankQuantities,
        total_fuel_on_board_lb: u64,
        in_flight: bool,
    )
        requires
            tank_quantities.wf(),
        ensures
            final(self).view() == (LoadAlleviationState {
                to_outer: (
                    transfer_to_outer_next(
                        total_fuel_on_board_lb,
                        in_flight,
                        tank_quantities.full@[tank_index(A380FuelTankType::LeftOuter)],
                    ),
                    transfer_to_outer_next(
                        total_fuel_on_board_lb,
                        in_flight,
                        tank_quantities.full@[tank_index(A380FuelTankType::RightOuter)],
                    ),
                ),
                ..old(self).view()
            }),
    {
        let transfer_enabled = lt(OUTER_TANK_FILL_MIN_FUEL_LB, total_fuel_on_board_lb) && in_flight;
        let left = transfer_enabled && !tank_quantities.tank_full(A380FuelTankType::LeftOuter);
        let right = transfer_enabled && !tank_quantities.tank_full(A380FuelTankType::RightOuter);
        self.transfer_to_outer_tank_active = [left, right];
    }

    fn outer_transfer_decision(
        active: bool,
        quantity_lb: u64,
        remaining_flight_time_ns: Option<u128>,
        max_altitude: u64,
        altitude_m: Option<u64>,
    ) -> (r: bool)
        ensures
            r == transfer_from_outer_next(
                active,
                quantity_lb,
                remaining_flight_time_ns,
                max_altitude,
                altitude_m,
            ),
    {
        lt(OUTER_TANK_TRANSFER_MIN_LB, quantity_lb) && if active {
            match remaining_flight_time_ns {
                Some(d) => d <= TRANSFER_FROM_OUTER_STOP_NS,
                None => false,
            }
        } else {
            (match remaining_flight_time_ns {
                Some(d) => d < TRANSFER_FROM_OUTER_START_NS,
                None => false,
            }) || Self::descent_has_started(max_altitude, altitude_m)
        }
    }

    fn descent_has_started(max_altitude: u64, altitude_m: Option<u64>) -> (r: bool)
        ensures
            r == descent_started(max_altitude, altitude_m),
    {
        lt(DESCENT_ARM_ALTITUDE_M, max_altitude) && match altitude_m {
            Some(a) => lt(a, DESCENT_TRIGGER_ALTITUDE_M),
            None => false,
        }
    }

    fn update_transfer_from_outer_tanks(
        &mut self,
        tank_quantities: &TankQuantities,
        remaining_flight_time_ns: Option<u128>,
        altitude_m: Option<u64>,
    )
        requires
            tank_quantities.wf(),
        ensures
            final(self).view() == (LoadAlleviationState {
                from_outer: (
                    transfer_from_outer_next(
                        old(self).view().from_outer.0,
                        tank_quantities.quantities_lb@[tank_index(A380FuelTankType::LeftOuter)],
                        remaining_flight_time_ns,
                        old(self).view().max_altitude,
                        altitude_m,
                    ),
                    transfer_from_outer_next(
                        old(self).view().from_outer.1,
                        tank_quantities.quantities_lb@[tank_index(A380FuelTankType::RightOuter)],
                        remaining_flight_time_ns,
                        old(self).view().max_altitude,
                        altitude_m,
                    ),
                ),
                ..old(self).view()
            }),
    {
        let left = Self::outer_transfer_decision(
            self.transfer_from_outer_tank_active[0],
            tank_quantities.get_tank_quantity(A380FuelTankType::LeftOuter),
            remaining_flight_time_ns,
            self.max_altitude_reached,
            altitude_m,
        );
        let right = Self::outer_transfer_decision(
            self.transfer_from_outer_tank_active[1],
            tank_quantities.get_tank_quantity(A380FuelTankType::RightOuter),
            remaining_flight_time_ns,
            self.max_altitude_reached,
            altitude_m,
        );
        self.transfer_from_outer_tank_active = [left, right];
    }

    fn update_transfer_from_trim_tank(
        &mut self,
        tank_quantities: &TankQuantities,
        remaining_flight_time_ns: Option<u128>,
        altitude_m: Option<u64>,
        trim_tank_feed_isolated: bool,
    )
        requires
            tank_quantities.wf(),
        ensures
            final(self).view() == (LoadAlleviationState {
                trim_forward: trim_transfer_next(
                    old(self).view().trim_forward,
                    tank_quantities.empty@[tank_index(A380FuelTankType::Trim)],
                    remaining_flight_time_ns,
                    old(self).view().max_altitude,
                    altitude_m,
                    trim_tank_feed_isolated,
                ),
                ..old(self).view()
            }),
    {
        let trim_tank_empty = tank_quantities.tank_empty(A380FuelTankType::Trim);
        self.trim_tank_forward_transfer_active = if self.trim_tank_forward_transfer_active {
            !trim_tank_empty && match remaining_flight_time_ns {
                Some(d) => d <= TRIM_TANK_FWD_TRANSFER_STOP_NS,
                None => true,
            } && !trim_tank_feed_isolated
        } else {
            !trim_tank_empty && !trim_tank_feed_isolated && ((match remaining_flight_time_ns {
                Some(d) => d < TRIM_TANK_FWD_TRANSFER_START_NS,
                None => false,
            }) || Self::descent_has_started(self.max_altitude_reached, altitude_m))
        };
    }

    /// Claims the galleries for the load alleviation transfers: the forward gallery, if
    /// still unused, per `forward_gallery_request`; then the aft gallery, if the trim tank
    /// transfer is active and the aft gallery still unused, per `aft_gallery_request`.
    pub fn set_gallery_modes(
        &self,
        gallery_connections: &mut TransferGalleryTankConnections,
        tank_quantities: &TankQuantities,
    )
        requires
            old(gallery_connections).wf(),
            tank_quantities.wf(),
        ensures
            final(gallery_connections).wf(),
            final(gallery_connections).forward_gallery@ == if gallery_unused(
                old(gallery_connections).forward_gallery@,
            ) {
                match forward_gallery_request(self.view(), tank_quantities.full@, tank_quantities.empty@) {
                    Some(m) => apply_modes(old(gallery_connections).forward_gallery@, m),
                    None => old(gallery_connections).forward_gallery@,
                }
            } else {
                old(gallery_connections).forward_gallery@
            },
            final(gallery_connections).aft_gallery@ == if self.view().trim_forward && gallery_unused(
                old(gallery_connections).aft_gallery@,
            ) {
                apply_modes(old(gallery_connections).aft_gallery@, aft_gallery_request(tank_quantities.full@))
            } else {
                old(gallery_connections).aft_gallery@
            },
    {
        let feed = feed_tank_list();
        let mid = mid_tank_list();
        let inner = inner_tank_list();
        let outer = outer_tank_list();
        if gallery_connections.is_forward_gallery_usable() {
            if self.is_transfer_from_outer_tank_active() {
                let targets = if !tank_quantities.tanks_full(&feed) {
                    &feed
                } else if !tank_quantities.tanks_full(&mid) {
                    &mid
                } else {
                    &inner
                };
                let mut modes: Vec<(A380FuelTankType, TankMode)> = Vec::new();
                push_flagged_outer(&mut modes, self.transfer_from_outer_tank_active, TankMode::Source);
                push_not_full_targets(&mut modes, targets, tank_quantities);
                gallery_connections.set_forward_gallery_modes(&modes);
            } else if self.is_transfer_to_outer_tank_active() {
                let sources = if !tank_quantities.tanks_empty(&inner) {
                    &inner
                } else {
                    &mid
                };
                let mut modes: Vec<(A380FuelTankType, TankMode)> = Vec::new();
                push_flagged_outer(&mut modes, self.transfer_to_outer_tank_active, TankMode::Target);
                let ghost before = modes@;
                let mut i: usize = 0;
                while i < sources.len()
                    invariant
                        i <= sources.len(),
                        modes@ == before + all_sources(sources@.take(i as int)),
                    decreases sources.len() - i,
                {
                    modes.push((sources[i], TankMode::Source));
                    i = i + 1;
                    assert(modes@ =~= before + all_sources(sources@.take(i as int)));
                }
                assert(sources@.take(sources.len() as int) =~= sources@);
                gallery_connections.set_forward_gallery_modes(&modes);
            }
        }
        if self.trim_tank_forward_transfer_active && gallery_connections.is_aft_gallery_usable() {
            let targets = if !tank_quantities.tanks_full(&feed) {
                &feed
            } else if !tank_quantities.tanks_full(&inner) {
                &mid
            } else {
                &inner
            };
            let mut modes: Vec<(A380FuelTankType, TankMode)> = Vec::new();
            modes.push((A380FuelTankType::Trim, TankMode::Source));
            push_not_full_targets(&mut modes, targets, tank_quantities);
            assert(modes@ =~= aft_gallery_request(tank_quantities.full@));
            gallery_connections.set_aft_gallery_modes(&modes);
        }
    }
}

/// The fuel transfer partition: the current gallery connections and the load alleviation
/// transfer state.
pub struct FuelTransferApplication {
    gallery_connections: TransferGalleryTankConnections,
    load_alleviation_transfer: LoadAlleviationTransfer,
}

impl FuelTransferApplication {
    pub closed spec fn connections(&self) -> (Seq<Option<TankMode>>, Seq<Option<TankMode>>) {
        (self.gallery_connections.forward_gallery@, self.gallery_connections.aft_gallery@)
    }

    pub closed spec fn load_alleviation(&self) -> LoadAlleviationState {
        self.load_alleviation_transfer.view()
    }

    pub closed spec fn wf(&self) -> bool {
        self.gallery_connections.wf()
    }

    /// No gallery connections and no transfer active.
    pub fn new() -> (r: Self)
        ensures
            r.wf(),
            gallery_unused(r.connections().0),
            gallery_unused(r.connections().1),
            r.load_alleviation() == (LoadAlleviationState {
                to_outer: (false, false),
                from_outer: (false, false),
                trim_forward: false,
                max_altitude: 0u64,
            }),
    {
        FuelTransferApplication {
            gallery_connections: TransferGalleryTankConnections::new(),
            load_alleviation_transfer: LoadAlleviationTransfer::new(),
        }
    }

    /// Returns to the state of `new`.
    pub fn reset(&mut self)
        ensures
            final(self).wf(),
            gallery_unused(final(self).connections().0),
            gallery_unused(final(self).connections().1),
            final(self).load_alleviation() == (LoadAlleviationState {
                to_outer: (false, false),
                from_outer: (false, false),
                trim_forward: false,
                max_altitude: 0u64,
            }),
    {
        *self = Self::new();
    }

    /// One update of the transfer partition. Without a known fuel on board only manual
    /// transfers are possible: the galleries are cleared and nothing else changes.
    /// Otherwise the load alleviation transfers are advanced and claim, from two unused
    /// galleries, the connections they need. (The main and centre-of-gravity transfers,
    /// which would claim galleries after them, are not part of this library.)
    pub fn update(
        &mut self,
        tank_quantities: &TankQuantities,
        total_fuel_on_board_lb: Option<u64>,
        remaining_flight_time_ns: Option<u128>,
        in_flight: bool,
        trim_tank_feed_isolated: bool,
        altitude_m: Option<u64>,
    )
        requires
            old(self).wf(),
            tank_quantities.wf(),
        ensures
            final(self).wf(),
            match total_fuel_on_board_lb {
                None => {
                    &&& final(self).connections() == (unused_gallery(), unused_gallery())
                    &&& final(self).load_alleviation() == old(self).load_alleviation()
                },
                Some(tfob) => {
                    let n = load_alleviation_next(
                        old(self).load_alleviation(),
                        tank_quantities.quantities_lb@,
                        tank_quantities.full@,
                        tank_quantities.empty@,
                        tfob,
                        remaining_flight_time_ns,
                        in_flight,
                        trim_tank_feed_isolated,
                        altitude_m,
                    );
                    &&& final(self).load_alleviation() == n
                    &&& final(self).connections() == load_alleviation_galleries(
                        n,
                        tank_quantities.full@,
                        tank_quantities.empty@,
                    )
                },
            },
    {
        let tfob = match total_fuel_on_board_lb {
            Some(t) => t,
            None => {
                self.gallery_connections = TransferGalleryTankConnections::new();
                assert(self.gallery_connections.forward_gallery@ =~= unused_gallery());
                assert(self.gallery_connections.aft_gallery@ =~= unused_gallery());
                return;
            },
        };
        self.load_alleviation_transfer.update(
            tank_quantities,
            tfob,
            remaining_flight_time_ns,
            in_flight,
            trim_tank_feed_isolated,
            altitude_m,
        );
        let mut gallery_connections = TransferGalleryTankConnections::new();
        assert(gallery_connections.forward_gallery@ =~= unused_gallery());
        assert(gallery_connections.aft_gallery@ =~= unused_gallery());
        self.load_alleviation_transfer.set_gallery_modes(&mut gallery_connections, tank_quantities);
        self.gallery_connections = gallery_connections;
    }

    pub fn gallery_connections(&self) -> (r: &TransferGalleryTankConnections)
        ensures
            (r.forward_gallery@, r.aft_gallery@) == self.connections(),
    {
        &self.gallery_connections
    }
}

} // verus!
