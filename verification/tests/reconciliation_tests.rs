use std::collections::HashMap;
use yummy_indexing::controller::main_controller::MainController;
use yummy_indexing::error::SyncError;
use yummy_indexing::models::store_to_elastic::{Decimal, DistinctStoreResult, StoreResult};
use yummy_indexing::models::store_types::{StoreTypesMap, StoreTypesResult};
use yummy_indexing::services::es_query_service::EsQueryServicePub;
use yummy_indexing::services::query_service::{
    can_advance, next_watermark, PageRequest, QueryServicePub, StoreBatchCursor,
};
use yummy_indexing::utils_module::time_utils::get_naivedatetime;

fn row(seq: i32, name: &str, recommend: Option<&str>) -> StoreResult {
    StoreResult {
        seq,
        name: name.to_string(),
        store_type: Some("korean".to_string()),
        address: None,
        lat: Decimal { mantissa: 375_665_000, scale: 7 },
        lng: Decimal { mantissa: 1_269_780_000, scale: 7 },
        zero_possible: seq % 2 == 0,
        recommend_name: recommend.map(|r| r.to_string()),
        location_city: Some("Seoul".to_string()),
        location_county: None,
        location_district: Some("Jongno".to_string()),
    }
}

fn aggregate(rows: &[StoreResult]) -> Vec<DistinctStoreResult> {
    let now = get_naivedatetime(2025, 2, 20, 1, 2, 3).unwrap();
    QueryServicePub::new().get_distinct_store_table(rows, now).unwrap()
}

fn controller() -> MainController {
    MainController::new(QueryServicePub::new(), EsQueryServicePub::new())
}

#[test]
fn rows_of_one_store_merge_their_recommendations() {
    let rows = vec![row(1, "a", Some("X")), row(1, "a", Some("Y")), row(2, "b", None)];
    let entities = aggregate(&rows);
    assert_eq!(entities.len(), 2);
    assert_eq!(entities[0].seq, 1);
    assert_eq!(entities[0].recommend_names, vec!["X".to_string(), "Y".to_string()]);
    assert_eq!(entities[1].seq, 2);
    assert!(entities[1].recommend_names.is_empty());
}

#[test]
fn entity_carries_first_row_and_timestamp_of_the_pass() {
    let mut second = row(7, "renamed", Some("B"));
    second.zero_possible = true;
    second.address = Some("elsewhere".to_string());
    let rows = vec![row(7, "first", None), second];
    let entities = aggregate(&rows);
    assert_eq!(entities.len(), 1);
    let e = &entities[0];
    assert_eq!(e.timestamp, "2025-02-20T01:02:03Z");
    assert_eq!(e.name, "first");
    assert_eq!(e.address, None);
    assert_eq!(e.zero_possible, false);
    assert_eq!(e.store_type, Some("korean".to_string()));
    assert_eq!(e.lat, Decimal { mantissa: 375_665_000, scale: 7 });
    assert_eq!(e.lng, Decimal { mantissa: 1_269_780_000, scale: 7 });
    assert_eq!(e.location_city, Some("Seoul".to_string()));
    assert_eq!(e.location_county, None);
    assert_eq!(e.location_district, Some("Jongno".to_string()));
    assert_eq!(e.recommend_names, vec!["B".to_string()]);
    assert!(e.major_type.is_empty());
    assert!(e.sub_type.is_empty());
}

#[test]
fn aggregation_keys_are_unique_and_come_from_the_rows() {
    let rows = vec![
        row(5, "e", Some("p")),
        row(3, "c", None),
        row(5, "e", Some("q")),
        row(9, "i", Some("r")),
        row(3, "c", Some("s")),
        row(5, "e", None),
    ];
    let entities = aggregate(&rows);
    let keys: Vec<i32> = entities.iter().map(|e| e.seq).collect();
    assert_eq!(keys, vec![5, 3, 9]);
    for row in &rows {
        assert!(keys.contains(&row.seq));
    }
}

#[test]
fn merged_names_keep_repeats_and_skip_missing_names() {
    let rows = vec![
        row(1, "a", Some("X")),
        row(1, "a", None),
        row(1, "a", Some("X")),
        row(2, "b", Some("X")),
        row(1, "a", Some("Z")),
    ];
    let entities = aggregate(&rows);
    assert_eq!(
        entities[0].recommend_names,
        vec!["X".to_string(), "X".to_string(), "Z".to_string()]
    );
    assert_eq!(entities[1].recommend_names, vec!["X".to_string()]);
}

#[test]
fn aggregation_of_no_rows_is_empty() {
    assert!(aggregate(&[]).is_empty());
}

fn type_row(seq: i32, major_type: i32, sub_type: i32) -> StoreTypesResult {
    StoreTypesResult { seq, major_type, sub_type }
}

#[test]
fn categories_are_grouped_by_store_without_repeats() {
    let rows = vec![
        type_row(1, 10, 101),
        type_row(1, 10, 102),
        type_row(2, 20, 201),
        type_row(1, 30, 101),
        type_row(1, 10, 103),
    ];
    let types = QueryServicePub::new().get_store_types(&rows).unwrap();
    assert_eq!(types.store_type_major_map.len(), 2);
    assert_eq!(types.store_type_major_map[&1], vec![10, 30]);
    assert_eq!(types.store_type_sub_map[&1], vec![101, 102, 103]);
    assert_eq!(types.store_type_major_map[&2], vec![20]);
    assert_eq!(types.store_type_sub_map[&2], vec![201]);
    assert!(!types.store_type_major_map.contains_key(&3));
}

#[test]
fn categories_reach_every_entity() {
    let mut entities = aggregate(&[row(1, "a", None), row(2, "b", None)]);
    let types = QueryServicePub::new()
        .get_store_types(&vec![type_row(2, 20, 201), type_row(1, 10, 101), type_row(1, 11, 101)])
        .unwrap();
    controller().handling_store_type(&types, &mut entities).unwrap();
    assert_eq!(entities[0].major_type, vec![10, 11]);
    assert_eq!(entities[0].sub_type, vec![101]);
    assert_eq!(entities[1].major_type, vec![20]);
    assert_eq!(entities[1].sub_type, vec![201]);
}

#[test]
fn store_without_categories_is_a_data_integrity_failure() {
    let mut entities = aggregate(&[row(1, "a", None), row(2, "b", None), row(3, "c", None)]);
    let types = QueryServicePub::new()
        .get_store_types(&vec![type_row(1, 10, 101), type_row(3, 30, 301)])
        .unwrap();
    let failure = controller().handling_store_type(&types, &mut entities).unwrap_err();
    assert!(matches!(failure, SyncError::DataIntegrity { seq: 2 }));
    assert_eq!(entities[0].major_type, vec![10]);
    assert!(entities[1].major_type.is_empty());
    assert!(entities[2].major_type.is_empty());
}

#[test]
fn store_in_one_lookup_only_is_a_data_integrity_failure() {
    let mut entities = aggregate(&[row(1, "a", None)]);
    let mut major = HashMap::new();
    major.insert(1, vec![10]);
    let types = StoreTypesMap::new(major, HashMap::new());
    let failure = controller().handling_store_type(&types, &mut entities).unwrap_err();
    assert!(matches!(failure, SyncError::DataIntegrity { seq: 1 }));
    assert!(entities[0].major_type.is_empty());
}

#[test]
fn pages_are_fetched_behind_the_last_key_until_one_is_empty() {
    let mut cursor = StoreBatchCursor::new(2);
    assert_eq!(cursor.request(), PageRequest::Fetch { after: None, limit: 2 });
    cursor.accept(vec![row(1, "a", None), row(4, "d", None)]);
    assert_eq!(cursor.request(), PageRequest::Fetch { after: Some(4), limit: 2 });
    cursor.accept(vec![row(6, "f", None)]);
    assert_eq!(cursor.request(), PageRequest::Fetch { after: Some(6), limit: 2 });
    cursor.accept(vec![]);
    assert_eq!(cursor.request(), PageRequest::Finished);
    let keys: Vec<i32> = cursor.into_rows().iter().map(|r| r.seq).collect();
    assert_eq!(keys, vec![1, 4, 6]);
}

#[test]
fn first_page_empty_ends_the_fetch_with_no_rows() {
    let mut cursor = StoreBatchCursor::new(10);
    cursor.accept(vec![]);
    assert_eq!(cursor.request(), PageRequest::Finished);
    assert!(cursor.into_rows().is_empty());
}

#[test]
fn watermark_moves_to_the_cycle_start_only_when_something_changed() {
    let shown = Some(get_naivedatetime(2025, 2, 20, 1, 0, 0).unwrap());
    let start = get_naivedatetime(2025, 2, 20, 1, 2, 3).unwrap();
    assert!(next_watermark(&shown, start, 0, 0, 0).is_none());
    for (c, u, d) in [(1, 0, 0), (0, 1, 0), (0, 0, 1), (2, 3, 4)] {
        let written = next_watermark(&shown, start, c, u, d).unwrap();
        assert!(!written.is_before(&start) && !start.is_before(&written));
        let first = next_watermark(&None, start, c, u, d).unwrap();
        assert!(!first.is_before(&start) && !start.is_before(&first));
    }
    assert!(next_watermark(&None, start, 0, 0, 0).is_none());
}

#[test]
fn watermark_is_never_moved_backward() {
    let shown = get_naivedatetime(2025, 2, 20, 1, 2, 3).unwrap();
    let earlier = get_naivedatetime(2025, 2, 20, 1, 2, 2).unwrap();
    assert!(!can_advance(&Some(shown), &earlier));
    assert!(can_advance(&Some(shown), &shown));
    assert!(can_advance(&Some(earlier), &shown));
    assert!(can_advance(&None, &earlier));
    assert!(next_watermark(&Some(shown), earlier, 5, 0, 5).is_none());
    assert!(next_watermark(&Some(shown), shown, 5, 0, 5).is_some());
}

#[test]
fn pages_of_whole_stores_lose_no_row() {
    let source = vec![
        row(1, "a", Some("X")),
        row(1, "a", Some("Y")),
        row(1, "a", Some("Z")),
        row(2, "b", None),
        row(5, "e", Some("P")),
        row(5, "e", Some("Q")),
    ];
    let mut cursor = StoreBatchCursor::new(1);
    let mut asked = Vec::new();
    loop {
        let (after, limit) = match cursor.request() {
            PageRequest::Fetch { after, limit } => (after, limit),
            PageRequest::Finished => break,
        };
        asked.push(after);
        let mut stores: Vec<i32> = source
            .iter()
            .map(|r| r.seq)
            .filter(|seq| after.map_or(true, |a| *seq > a))
            .collect();
        stores.dedup();
        stores.truncate(limit);
        let page: Vec<StoreResult> = source
            .iter()
            .filter(|r| stores.contains(&r.seq))
            .map(|r| row(r.seq, &r.name, r.recommend_name.as_deref()))
            .collect();
        cursor.accept(page);
    }
    assert_eq!(asked, vec![None, Some(1), Some(2), Some(5)]);
    let rows = cursor.into_rows();
    let got: Vec<(i32, Option<String>)> =
        rows.iter().map(|r| (r.seq, r.recommend_name.clone())).collect();
    let want: Vec<(i32, Option<String>)> =
        source.iter().map(|r| (r.seq, r.recommend_name.clone())).collect();
    assert_eq!(got, want);
}

#[test]
fn entity_setters_replace_the_codes() {
    let mut entities = aggregate(&[row(1, "a", Some("X"))]);
    entities[0].set_major_type(vec![1, 2]);
    entities[0].set_sub_type(vec![3]);
    assert_eq!(entities[0].major_type, vec![1, 2]);
    assert_eq!(entities[0].sub_type, vec![3]);
    assert_eq!(entities[0].recommend_names, vec!["X".to_string()]);
}
