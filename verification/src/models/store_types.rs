//! The categories of stores: one row per store and sub-category, and the
//! codes grouped by store.

use std::collections::HashMap;
use vstd::prelude::*;

verus! {

/// One row of the category lookup: store `seq` belongs to the sub-category
/// `sub_type`, which belongs to the major category `major_type`.
#[derive(Clone, Copy, Debug, PartialEq, Eq, Structural)]
pub struct StoreTypesResult {
    pub seq: i32,
    pub major_type: i32,
    pub sub_type: i32,
}

/// The codes of the major categories and of the sub-categories, by store.
#[derive(Debug)]
pub struct StoreTypesMap {
    pub store_type_major_map: HashMap<i32, Vec<i32>>,
    pub store_type_sub_map: HashMap<i32, Vec<i32>>,
}

/// The codes that `map` holds for store `key`; `None` where it holds none.
pub open spec fn codes_in(map: Map<i32, Vec<i32>>, key: i32) -> Option<Seq<i32>> {
    if map.contains_key(key) {
        Some(map[key]@)
    } else {
        None
    }
}

/// What a [`StoreTypesMap`] stands for.
pub struct StoreTypesView {
    pub major: Map<i32, Seq<i32>>,
    pub sub: Map<i32, Seq<i32>>,
}

impl StoreTypesView {
    /// The codes of the major categories of store `key`.
    pub open spec fn major_of(self, key: i32) -> Option<Seq<i32>> {
        if self.major.contains_key(key) {
            Some(self.major[key])
        } else {
            None
        }
    }

    /// The codes of the sub-categories of store `key`.
    pub open spec fn sub_of(self, key: i32) -> Option<Seq<i32>> {
        if self.sub.contains_key(key) {
            Some(self.sub[key])
        } else {
            None
        }
    }
}

/// The lists of codes that `map` holds, by store.
pub open spec fn code_lists(map: Map<i32, Vec<i32>>) -> Map<i32, Seq<i32>> {
    Map::new(|key: i32| map.contains_key(key), |key: i32| map[key]@)
}

impl View for StoreTypesMap {
    type V = StoreTypesView;

    open spec fn view(&self) -> StoreTypesView {
        StoreTypesView {
            major: code_lists(self.store_type_major_map@),
            sub: code_lists(self.store_type_sub_map@),
        }
    }
}

impl StoreTypesMap {

    /// The two groupings as one value.
    pub fn new(
        store_type_major_map: HashMap<i32, Vec<i32>>,
        store_type_sub_map: HashMap<i32, Vec<i32>>,
    ) -> (map: StoreTypesMap)
        ensures
            map.store_type_major_map == store_type_major_map,
            map.store_type_sub_map == store_type_sub_map,
    {
        StoreTypesMap { store_type_major_map, store_type_sub_map }
    }
}

} // verus!
