//! Typed key-value state scoped to a route and to each activity within it.
//!
//! The store is a type-indexed slot table: each well-known key owns one slot
//! of the right shape, so reads never cast and contracts can name every slot
//! directly. Activity-scoped values are kept as one vector per key, aligned
//! with the tour's activity indices.

use vstd::prelude::*;

use crate::common::{Distance, Duration, Load, Ratio};

verus! {

/// Key of the per-activity current load.
pub const CURRENT_CAPACITY_KEY: i32 = 11;

/// Key of the per-activity maximal load seen up to the activity.
pub const MAX_PAST_CAPACITY_KEY: i32 = 12;

/// Key of the per-activity maximal load seen from the activity on.
pub const MAX_FUTURE_CAPACITY_KEY: i32 = 13;

/// Key of the per-route max load over capacity ratio.
pub const MAX_LOAD_KEY: i32 = 14;

/// Key of the per-route reload interval list.
pub const RELOAD_INTERVALS_KEY: i32 = 15;

/// Key of the per-activity reload resource values.
pub const RELOAD_RESOURCE_KEY: i32 = 16;

/// Key of the per-activity accumulated recharge distance.
pub const RECHARGE_DISTANCE_KEY: i32 = 17;

/// Key of the per-route recharge interval list.
pub const RECHARGE_INTERVALS_KEY: i32 = 18;

/// Key of the per-route total distance.
pub const TOTAL_DISTANCE_KEY: i32 = 19;

/// Key of the per-route total duration.
pub const TOTAL_DURATION_KEY: i32 = 20;

/// Key of the max-load balance value.
pub const BALANCE_MAX_LOAD_KEY: i32 = 21;

/// Key of the activity-count balance value.
pub const BALANCE_ACTIVITY_KEY: i32 = 22;

/// Key of the distance balance value.
pub const BALANCE_DISTANCE_KEY: i32 = 23;

/// Key of the duration balance value.
pub const BALANCE_DURATION_KEY: i32 = 24;

/// Key of the total job value.
pub const TOTAL_VALUE_KEY: i32 = 25;

/// Key of the tour order value.
pub const TOUR_ORDER_KEY: i32 = 26;

/// Key under which the insertion cache is kept in the solution state.
pub const INSERTION_CACHE_KEY: i32 = 27;

/// Typed state owned by one route: one slot per well-known key.
#[derive(Clone, Debug)]
pub struct RouteState {
    /// Per-activity current load (`CURRENT_CAPACITY_KEY`).
    pub current_capacities: Option<Vec<Load>>,
    /// Per-activity max past load (`MAX_PAST_CAPACITY_KEY`).
    pub max_past_capacities: Option<Vec<Load>>,
    /// Per-activity max future load (`MAX_FUTURE_CAPACITY_KEY`).
    pub max_future_capacities: Option<Vec<Load>>,
    /// Max load over capacity (`MAX_LOAD_KEY`).
    pub max_load: Option<Ratio>,
    /// Reload intervals (`RELOAD_INTERVALS_KEY`), inclusive index pairs.
    pub reload_intervals: Option<Vec<(usize, usize)>>,
    /// Per-activity reload resource (`RELOAD_RESOURCE_KEY`).
    pub reload_resources: Option<Vec<Load>>,
    /// Per-activity accumulated recharge distance (`RECHARGE_DISTANCE_KEY`).
    pub recharge_distances: Option<Vec<Distance>>,
    /// Recharge intervals (`RECHARGE_INTERVALS_KEY`), inclusive index pairs.
    pub recharge_intervals: Option<Vec<(usize, usize)>>,
    /// Total route distance (`TOTAL_DISTANCE_KEY`).
    pub total_distance: Option<Distance>,
    /// Total route duration (`TOTAL_DURATION_KEY`).
    pub total_duration: Option<Duration>,
    /// Generic route values keyed by the balance and value keys.
    pub generic_values: IntStateMap,
}

impl RouteState {
    /// A state with every slot empty.
    pub fn empty() -> (r: RouteState)
        ensures
            r.current_capacities is None,
            r.max_past_capacities is None,
            r.max_future_capacities is None,
            r.max_load is None,
            r.reload_intervals is None,
            r.reload_resources is None,
            r.recharge_distances is None,
            r.recharge_intervals is None,
            r.total_distance is None,
            r.total_duration is None,
            r.generic_values@ == Map::<i32, i64>::empty(),
    {
        RouteState {
            current_capacities: None,
            max_past_capacities: None,
            max_future_capacities: None,
            max_load: None,
            reload_intervals: None,
            reload_resources: None,
            recharge_distances: None,
            recharge_intervals: None,
            total_distance: None,
            total_duration: None,
            generic_values: IntStateMap::new(),
        }
    }

    /// The per-activity load vector held under a capacity key, if any.
    pub open spec fn spec_capacity_slot(&self, key: i32) -> Option<Seq<Load>> {
        if key == CURRENT_CAPACITY_KEY {
            match self.current_capacities {
                Some(v) => Some(v@),
                None => None,
            }
        } else if key == MAX_PAST_CAPACITY_KEY {
            match self.max_past_capacities {
                Some(v) => Some(v@),
                None => None,
            }
        } else if key == MAX_FUTURE_CAPACITY_KEY {
            match self.max_future_capacities {
                Some(v) => Some(v@),
                None => None,
            }
        } else {
            None
        }
    }

    /// Reads one per-activity load value under a capacity key.
    pub fn get_activity_load(&self, key: i32, index: usize) -> (r: Option<Load>)
        ensures
            r == match self.spec_capacity_slot(key) {
                Some(s) => if index < s.len() {
                    Some(s[index as int])
                } else {
                    None::<Load>
                },
                None => None::<Load>,
            },
    {
        let slot: &Option<Vec<Load>> = if key == CURRENT_CAPACITY_KEY {
            &self.current_capacities
        } else if key == MAX_PAST_CAPACITY_KEY {
            &self.max_past_capacities
        } else if key == MAX_FUTURE_CAPACITY_KEY {
            &self.max_future_capacities
        } else {
            &None
        };
        match slot {
            Some(v) => {
                if index < v.len() {
                    Some(v[index])
                } else {
                    None
                }
            },
            None => None,
        }
    }
}

/// A small map from state keys to plain integer values, used for the
/// solution-wide state and the generic route values.
#[derive(Clone, Debug)]
pub struct IntStateMap {
    entries: Vec<(i32, i64)>,
}

impl IntStateMap {
    /// The association held by the map.
    pub closed spec fn view(&self) -> Map<i32, i64> {
        Self::entries_map(self.entries@)
    }

    /// The association held by an entry sequence; later entries shadow
    /// earlier ones.
    pub closed spec fn entries_map(s: Seq<(i32, i64)>) -> Map<i32, i64>
        decreases s.len(),
    {
        if s.len() == 0 {
            Map::empty()
        } else {
            Self::entries_map(s.drop_last()).insert(s.last().0, s.last().1)
        }
    }

    /// An empty map.
    pub fn new() -> (r: IntStateMap)
        ensures
            r@ == Map::<i32, i64>::empty(),
    {
        IntStateMap { entries: Vec::new() }
    }

    /// Inserts or replaces the value held under a key.
    pub fn insert(&mut self, key: i32, value: i64)
        ensures
            final(self)@ == old(self)@.insert(key, value),
    {
        self.entries.push((key, value));
        proof {
            assert(self.entries@.drop_last() =~= old(self).entries@);
            assert(self.entries@.last() == (key, value));
        }
    }

    /// The value held under a key, if any.
    pub fn get(&self, key: i32) -> (r: Option<i64>)
        ensures
            r == if self@.dom().contains(key) {
                Some(self@[key])
            } else {
                None::<i64>
            },
    {
        let mut i: usize = self.entries.len();
        proof {
            assert(self.entries@.subrange(0, i as int) == self.entries@);
        }
        while i > 0
            invariant
                0 <= i <= self.entries@.len(),
                Self::entries_map(self.entries@).dom().contains(key) == Self::entries_map(
                    self.entries@.subrange(0, i as int),
                ).dom().contains(key),
                Self::entries_map(self.entries@).dom().contains(key) ==> Self::entries_map(
                    self.entries@.subrange(0, i as int),
                ).dom().contains(key) && Self::entries_map(
                    self.entries@.subrange(0, i as int),
                )[key] == Self::entries_map(self.entries@)[key],
            decreases i,
        {
            let entry = self.entries[i - 1];
            proof {
                assert(self.entries@.subrange(0, i as int).drop_last() == self.entries@.subrange(
                    0,
                    i - 1,
                ));
                assert(self.entries@.subrange(0, i as int).last() == self.entries@[i - 1]);
            }
            if entry.0 == key {
                return Some(entry.1);
            }
            i = i - 1;
        }
        proof {
            assert(self.entries@.subrange(0, 0) =~= Seq::<(i32, i64)>::empty());
        }
        None
    }
}

} // verus!
