//! A store as the relational side hands it out, row by row, and as the
//! search index holds it, one document per store.

use vstd::prelude::*;

verus! {

/// A decimal number: `mantissa` divided by ten to the power `scale`.
#[derive(Clone, Copy, Debug, PartialEq, Eq, Structural)]
pub struct Decimal {
    pub mantissa: i128,
    pub scale: u32,
}

/// The text of an optional string.
pub open spec fn opt_text(s: Option<String>) -> Option<Seq<char>> {
    match s {
        Some(t) => Some(t@),
        None => None,
    }
}

/// One row of the join of a store with its recommendations: a store with
/// several recommendations comes as several rows.
#[derive(Debug)]
pub struct StoreResult {
    pub seq: i32,
    pub name: String,
    pub store_type: Option<String>,
    pub address: Option<String>,
    pub lat: Decimal,
    pub lng: Decimal,
    pub zero_possible: bool,
    pub recommend_name: Option<String>,
    pub location_city: Option<String>,
    pub location_county: Option<String>,
    pub location_district: Option<String>,
}

/// What a [`StoreResult`] stands for.
pub struct StoreRowView {
    pub seq: i32,
    pub name: Seq<char>,
    pub store_type: Option<Seq<char>>,
    pub address: Option<Seq<char>>,
    pub lat: Decimal,
    pub lng: Decimal,
    pub zero_possible: bool,
    pub recommend_name: Option<Seq<char>>,
    pub location_city: Option<Seq<char>>,
    pub location_county: Option<Seq<char>>,
    pub location_district: Option<Seq<char>>,
}

impl View for StoreResult {
    type V = StoreRowView;

    open spec fn view(&self) -> StoreRowView {
        StoreRowView {
            seq: self.seq,
            name: self.name@,
            store_type: opt_text(self.store_type),
            address: opt_text(self.address),
            lat: self.lat,
            lng: self.lng,
            zero_possible: self.zero_possible,
            recommend_name: opt_text(self.recommend_name),
            location_city: opt_text(self.location_city),
            location_county: opt_text(self.location_county),
            location_district: opt_text(self.location_district),
        }
    }
}

/// One store as a document of the search index: the rows of the store merged,
/// with the names of its recommendations and the codes of its categories as
/// arrays.
#[derive(Debug)]
pub struct DistinctStoreResult {
    pub timestamp: String,
    pub seq: i32,
    pub name: String,
    pub store_type: Option<String>,
    pub address: Option<String>,
    pub lat: Decimal,
    pub lng: Decimal,
    pub zero_possible: bool,
    pub recommend_names: Vec<String>,
    pub location_city: Option<String>,
    pub location_county: Option<String>,
    pub location_district: Option<String>,
    pub major_type: Vec<i32>,
    pub sub_type: Vec<i32>,
}

/// What a [`DistinctStoreResult`] stands for.
pub struct StoreEntityView {
    pub timestamp: Seq<char>,
    pub seq: i32,
    pub name: Seq<char>,
    pub store_type: Option<Seq<char>>,
    pub address: Option<Seq<char>>,
    pub lat: Decimal,
    pub lng: Decimal,
    pub zero_possible: bool,
    pub recommend_names: Seq<Seq<char>>,
    pub location_city: Option<Seq<char>>,
    pub location_county: Option<Seq<char>>,
    pub location_district: Option<Seq<char>>,
    pub major_type: Seq<i32>,
    pub sub_type: Seq<i32>,
}

/// The texts of a list of strings.
pub open spec fn texts(names: Seq<String>) -> Seq<Seq<char>> {
    Seq::new(names.len(), |i: int| names[i]@)
}

/// Adding a string to a list adds its text to the texts.
pub proof fn lemma_texts_push(names: Seq<String>, name: String)
    ensures
        texts(names.push(name)) == texts(names).push(name@),
{
    assert(texts(names.push(name)) =~= texts(names).push(name@));
}

impl View for DistinctStoreResult {
    type V = StoreEntityView;

    open spec fn view(&self) -> StoreEntityView {
        StoreEntityView {
            timestamp: self.timestamp@,
            seq: self.seq,
            name: self.name@,
            store_type: opt_text(self.store_type),
            address: opt_text(self.address),
            lat: self.lat,
            lng: self.lng,
            zero_possible: self.zero_possible,
            recommend_names: texts(self.recommend_names@),
            location_city: opt_text(self.location_city),
            location_county: opt_text(self.location_county),
            location_district: opt_text(self.location_district),
            major_type: self.major_type@,
            sub_type: self.sub_type@,
        }
    }
}

impl DistinctStoreResult {
    /// A document of the given fields.
    pub fn new(
        timestamp: String,
        seq: i32,
        name: String,
        store_type: Option<String>,
        address: Option<String>,
        lat: Decimal,
        lng: Decimal,
        zero_possible: bool,
        recommend_names: Vec<String>,
        location_city: Option<String>,
        location_county: Option<String>,
        location_district: Option<String>,
        major_type: Vec<i32>,
        sub_type: Vec<i32>,
    ) -> (entity: DistinctStoreResult)
        ensures
            entity == (DistinctStoreResult {
                timestamp,
                seq,
                name,
                store_type,
                address,
                lat,
                lng,
                zero_possible,
                recommend_names,
                location_city,
                location_county,
                location_district,
                major_type,
                sub_type,
            }),
    {
        DistinctStoreResult {
            timestamp,
            seq,
            name,
            store_type,
            address,
            lat,
            lng,
            zero_possible,
            recommend_names,
            location_city,
            location_county,
            location_district,
            major_type,
            sub_type,
        }
    }

    /// Replaces the codes of the major categories.
    pub fn set_major_type(&mut self, val: Vec<i32>)
        ensures
            *final(self) == (DistinctStoreResult { major_type: val, ..*old(self) }),
    {
        self.major_type = val;
    }

    /// Replaces the codes of the sub-categories.
    pub fn set_sub_type(&mut self, val: Vec<i32>)
        ensures
            *final(self) == (DistinctStoreResult { sub_type: val, ..*old(self) }),
    {
        self.sub_type = val;
    }
}

/// A copy of an optional string.
pub fn clone_opt_text(s: &Option<String>) -> (copy: Option<String>)
    ensures
        copy == *s,
{
    match s {
        Some(t) => Some(t.clone()),
        None => None,
    }
}

} // verus!
