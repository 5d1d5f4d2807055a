use chrono::TimeZone;
use yummy_indexing::configuration::index_schedules_config::IndexSchedules;
use yummy_indexing::controller::main_controller::{is_due, IndexTask, MainController};
use yummy_indexing::controller::store_cycle::{CycleAction, CycleEvent, CyclePhase};
use yummy_indexing::error::SyncError;
use yummy_indexing::models::store_to_elastic::{Decimal, StoreResult};
use yummy_indexing::models::store_types::StoreTypesResult;
use yummy_indexing::services::es_query_service::EsQueryServicePub;
use yummy_indexing::services::query_service::QueryServicePub;
use yummy_indexing::utils_module::time_utils::{get_naivedatetime, get_str_from_naive_datetime};

fn controller() -> MainController {
    MainController::new(QueryServicePub::new(), EsQueryServicePub::new())
}

fn definition(time: &str, function_name: &str) -> IndexSchedules {
    IndexSchedules {
        index_name: "stores".to_string(),
        time: time.to_string(),
        indexing_type: "dynamic".to_string(),
        setting_path: None,
        function_name: function_name.to_string(),
        sql_batch_size: 100,
        es_batch_size: 10,
    }
}

fn kst_ms(h: u32, m: u32, s: u32, milli: u32) -> i64 {
    let kst = chrono::FixedOffset::east_opt(9 * 3600).unwrap();
    let day = chrono::NaiveDate::from_ymd_opt(2025, 3, 3).unwrap();
    let moment = day.and_hms_milli_opt(h, m, s, milli).unwrap();
    kst.from_local_datetime(&moment).unwrap().timestamp_millis()
}

fn row(seq: i32, recommend: Option<&str>) -> StoreResult {
    StoreResult {
        seq,
        name: format!("store {}", seq),
        store_type: None,
        address: None,
        lat: Decimal { mantissa: 0, scale: 0 },
        lng: Decimal { mantissa: 0, scale: 0 },
        zero_possible: false,
        recommend_name: recommend.map(|r| r.to_string()),
        location_city: None,
        location_county: None,
        location_district: None,
    }
}

fn type_row(seq: i32, major_type: i32, sub_type: i32) -> StoreTypesResult {
    StoreTypesResult { seq, major_type, sub_type }
}

#[test]
fn hourly_schedule_fires_once_at_the_tick_before_the_hour() {
    let c = controller();
    let hourly = definition("0 0 * * * *", "store_dynamic_index");
    let tick = 500;
    let mut fired = Vec::new();
    let mut now = kst_ms(11, 59, 58, 600);
    let end = kst_ms(12, 0, 2, 0);
    while now < end {
        if c.main_schedule_task(&hourly, now, tick).unwrap() {
            fired.push(now);
        }
        now += tick as i64;
    }
    assert_eq!(fired, vec![kst_ms(11, 59, 59, 600)]);
    assert!(!c.main_schedule_task(&hourly, kst_ms(12, 0, 0, 100), tick).unwrap());
    assert!(!c.main_schedule_task(&hourly, kst_ms(12, 30, 0, 0), tick).unwrap());
    assert!(c.main_schedule_task(&hourly, kst_ms(12, 59, 59, 600), tick).unwrap());
}

#[test]
fn schedule_is_read_on_the_clocks_of_korea() {
    let c = controller();
    let at_noon = definition("0 0 12 * * *", "store_dynamic_index");
    assert!(c.main_schedule_task(&at_noon, kst_ms(11, 59, 59, 900), 500).unwrap());
    assert!(!c.main_schedule_task(&at_noon, kst_ms(2, 59, 59, 900), 500).unwrap());
    assert!(!c.main_schedule_task(&at_noon, kst_ms(20, 59, 59, 900), 500).unwrap());
}

#[test]
fn schedule_that_is_no_cron_expression_is_refused() {
    let c = controller();
    let broken = definition("every hour", "store_dynamic_index");
    match c.main_schedule_task(&broken, kst_ms(12, 0, 0, 0), 500) {
        Err(SyncError::Configuration { detail }) => {
            assert_eq!(detail, "Failed to parse CRON expression: every hour")
        }
        other => panic!("unexpected result {:?}", other),
    }
}

#[test]
fn tick_outside_the_supported_moments_does_not_fire() {
    let c = controller();
    let every_second = definition("* * * * * *", "store_dynamic_index");
    assert!(c.main_schedule_task(&every_second, 0, 5_000).unwrap());
    assert!(!c.main_schedule_task(&every_second, -1, 5_000).unwrap());
    assert!(!c.main_schedule_task(&every_second, i64::MAX, 5_000).unwrap());
    assert!(!c.main_schedule_task(&every_second, i64::MIN, 5_000).unwrap());
    assert!(!c.main_schedule_task(&every_second, 253_402_300_799_999, u64::MAX).unwrap());
}

#[test]
fn occurrence_is_due_less_than_a_tick_ahead() {
    assert!(is_due(1_000, 1_400, 500));
    assert!(is_due(1_000, 1_000, 500));
    assert!(is_due(1_000, 1_499, 500));
    assert!(!is_due(1_000, 1_500, 500));
    assert!(!is_due(1_000, 999, 500));
    assert!(!is_due(1_000, 1_400, 0));
    assert!(!is_due(i64::MIN, i64::MAX, u64::MAX));
    assert!(is_due(i64::MAX - 1, i64::MAX, 2));
}

#[test]
fn definition_names_its_task() {
    let c = controller();
    let task = |name: &str| c.main_task(&definition("* * * * * *", name));
    assert_eq!(task("store_static_index").unwrap(), IndexTask::StoreStaticIndex);
    assert_eq!(task("store_dynamic_index").unwrap(), IndexTask::StoreDynamicIndex);
    assert_eq!(task("auto_complete_static_index").unwrap(), IndexTask::AutoCompleteStaticIndex);
    match task("nope") {
        Err(SyncError::Configuration { detail }) => {
            assert_eq!(detail, "The mapped function does not exist.: nope")
        }
        other => panic!("unexpected result {:?}", other),
    }
    assert!(matches!(task(""), Err(SyncError::Configuration { .. })));
    assert!(c.auto_complete_static_index().is_ok());
}

#[test]
fn menu_number_picks_a_definition() {
    let c = controller();
    assert_eq!(c.cli_indexing_task(1, 3), Some(0));
    assert_eq!(c.cli_indexing_task(3, 3), Some(2));
    assert_eq!(c.cli_indexing_task(4, 3), None);
    assert_eq!(c.cli_indexing_task(0, 3), None);
    assert_eq!(c.cli_indexing_task(-1, 3), None);
    assert_eq!(c.cli_indexing_task(1, 0), None);
    assert_eq!(c.cli_indexing_task(i32::MAX, usize::MAX), Some(i32::MAX as usize - 1));
}

fn stores(rows: Vec<StoreResult>) -> CycleEvent {
    CycleEvent::Stores { rows, retired: Vec::new() }
}

#[test]
fn incremental_cycle_deletes_inserts_and_writes_the_watermark() {
    let c = controller();
    let start = get_naivedatetime(2025, 3, 3, 3, 0, 0).unwrap();
    let watermark = get_naivedatetime(2025, 3, 3, 2, 0, 0).unwrap();
    let (mut cycle, action) = c.store_dynamic_index(start);
    assert!(matches!(action, CycleAction::ReadWatermark));
    assert_eq!(cycle.phase(), CyclePhase::ReadingWatermark);
    match cycle.advance(&c, CycleEvent::Watermark(Some(watermark))) {
        CycleAction::FetchChangedStores { since } => {
            assert_eq!(get_str_from_naive_datetime(since), "2025-03-03T02:00:00Z")
        }
        other => panic!("unexpected action {:?}", other),
    }
    let rows = vec![row(3, Some("X")), row(3, Some("Y")), row(8, None)];
    match cycle.advance(&c, stores(rows)) {
        CycleAction::DeleteDocuments { keys } => assert_eq!(keys, vec![3, 8]),
        other => panic!("unexpected action {:?}", other),
    }
    assert_eq!(cycle.entities().len(), 2);
    assert_eq!(cycle.entities()[0].timestamp, "2025-03-03T03:00:00Z");
    match cycle.advance(&c, CycleEvent::Completed) {
        CycleAction::FetchStoreTypes { seqs } => assert_eq!(seqs, Some(vec![3, 8])),
        other => panic!("unexpected action {:?}", other),
    }
    let types = vec![type_row(3, 1, 11), type_row(8, 2, 21), type_row(8, 2, 22)];
    assert!(matches!(
        cycle.advance(&c, CycleEvent::StoreTypes(types)),
        CycleAction::InsertDocuments
    ));
    assert_eq!(cycle.entities()[1].major_type, vec![2]);
    assert_eq!(cycle.entities()[1].sub_type, vec![21, 22]);
    match cycle.advance(&c, CycleEvent::Completed) {
        CycleAction::WriteWatermark(moment) => {
            assert_eq!(get_str_from_naive_datetime(moment), "2025-03-03T03:00:00Z");
            assert_eq!(get_str_from_naive_datetime(cycle.cycle_start()), "2025-03-03T03:00:00Z");
        }
        other => panic!("unexpected action {:?}", other),
    }
    assert!(matches!(cycle.advance(&c, CycleEvent::Completed), CycleAction::Finish(Ok(()))));
    assert_eq!(cycle.phase(), CyclePhase::Finished);
}

#[test]
fn store_out_of_use_is_deleted_and_not_inserted() {
    let c = controller();
    let start = get_naivedatetime(2025, 3, 3, 3, 0, 0).unwrap();
    let watermark = get_naivedatetime(2025, 3, 3, 2, 0, 0).unwrap();
    let (mut cycle, _read) = c.store_dynamic_index(start);
    cycle.advance(&c, CycleEvent::Watermark(Some(watermark)));
    let event = CycleEvent::Stores { rows: vec![row(3, None)], retired: vec![9, 4] };
    match cycle.advance(&c, event) {
        CycleAction::DeleteDocuments { keys } => assert_eq!(keys, vec![3, 9, 4]),
        other => panic!("unexpected action {:?}", other),
    }
    assert_eq!(cycle.retired(), &vec![9, 4]);
    match cycle.advance(&c, CycleEvent::Completed) {
        CycleAction::FetchStoreTypes { seqs } => assert_eq!(seqs, Some(vec![3])),
        other => panic!("unexpected action {:?}", other),
    }
    assert!(matches!(
        cycle.advance(&c, CycleEvent::StoreTypes(vec![type_row(3, 1, 11)])),
        CycleAction::InsertDocuments
    ));
    let inserted: Vec<i32> = cycle.entities().iter().map(|e| e.seq).collect();
    assert_eq!(inserted, vec![3]);
    assert!(matches!(cycle.advance(&c, CycleEvent::Completed), CycleAction::WriteWatermark(_)));
}

#[test]
fn only_stores_out_of_use_still_move_the_watermark() {
    let c = controller();
    let start = get_naivedatetime(2025, 3, 3, 3, 0, 0).unwrap();
    let watermark = get_naivedatetime(2025, 3, 3, 2, 0, 0).unwrap();
    let (mut cycle, _read) = c.store_dynamic_index(start);
    cycle.advance(&c, CycleEvent::Watermark(Some(watermark)));
    let event = CycleEvent::Stores { rows: Vec::new(), retired: vec![9] };
    match cycle.advance(&c, event) {
        CycleAction::DeleteDocuments { keys } => assert_eq!(keys, vec![9]),
        other => panic!("unexpected action {:?}", other),
    }
    match cycle.advance(&c, CycleEvent::Completed) {
        CycleAction::FetchStoreTypes { seqs } => assert_eq!(seqs, Some(Vec::new())),
        other => panic!("unexpected action {:?}", other),
    }
    match cycle.advance(&c, CycleEvent::StoreTypes(Vec::new())) {
        CycleAction::WriteWatermark(moment) => {
            assert_eq!(get_str_from_naive_datetime(moment), "2025-03-03T03:00:00Z")
        }
        other => panic!("unexpected action {:?}", other),
    }
    assert!(matches!(cycle.advance(&c, CycleEvent::Completed), CycleAction::Finish(Ok(()))));
}

#[test]
fn cycle_that_started_before_the_watermark_writes_none() {
    let c = controller();
    let start = get_naivedatetime(2025, 3, 3, 3, 0, 0).unwrap();
    let later = get_naivedatetime(2025, 3, 3, 3, 0, 1).unwrap();
    let (mut cycle, _read) = c.store_dynamic_index(start);
    cycle.advance(&c, CycleEvent::Watermark(Some(later)));
    assert_eq!(get_str_from_naive_datetime(cycle.watermark().unwrap()), "2025-03-03T03:00:01Z");
    cycle.advance(&c, stores(vec![row(3, None)]));
    cycle.advance(&c, CycleEvent::Completed);
    assert!(matches!(
        cycle.advance(&c, CycleEvent::StoreTypes(vec![type_row(3, 1, 11)])),
        CycleAction::InsertDocuments
    ));
    assert!(matches!(cycle.advance(&c, CycleEvent::Completed), CycleAction::Finish(Ok(()))));

    let (mut cycle, _read) = c.store_static_index(start);
    cycle.advance(&c, CycleEvent::Watermark(Some(later)));
    cycle.advance(&c, stores(vec![row(3, None)]));
    assert!(matches!(
        cycle.advance(&c, CycleEvent::StoreTypes(vec![type_row(3, 1, 11)])),
        CycleAction::Reindex
    ));
    assert!(matches!(cycle.advance(&c, CycleEvent::Completed), CycleAction::Finish(Ok(()))));
}

#[test]
fn incremental_cycle_without_changes_leaves_the_watermark() {
    let c = controller();
    let start = get_naivedatetime(2025, 3, 3, 3, 0, 0).unwrap();
    let (mut cycle, _read) = c.store_dynamic_index(start);
    cycle.advance(&c, CycleEvent::Watermark(Some(start)));
    match cycle.advance(&c, stores(Vec::new())) {
        CycleAction::FetchStoreTypes { seqs } => assert_eq!(seqs, Some(Vec::new())),
        other => panic!("unexpected action {:?}", other),
    }
    assert!(matches!(
        cycle.advance(&c, CycleEvent::StoreTypes(Vec::new())),
        CycleAction::Finish(Ok(()))
    ));
}

#[test]
fn incremental_cycle_without_a_watermark_is_refused() {
    let c = controller();
    let start = get_naivedatetime(2025, 3, 3, 3, 0, 0).unwrap();
    let (mut cycle, _read) = c.store_dynamic_index(start);
    match cycle.advance(&c, CycleEvent::Watermark(None)) {
        CycleAction::Finish(Err(SyncError::Configuration { detail })) => {
            assert_eq!(detail, "no watermark")
        }
        other => panic!("unexpected action {:?}", other),
    }
}

#[test]
fn full_cycle_reindexes_and_writes_the_watermark() {
    let c = controller();
    let start = get_naivedatetime(2025, 3, 3, 3, 0, 0).unwrap();
    let (mut cycle, action) = c.store_static_index(start);
    assert!(matches!(action, CycleAction::ReadWatermark));
    assert!(matches!(cycle.advance(&c, CycleEvent::Watermark(None)), CycleAction::FetchAllStores));
    let event = CycleEvent::Stores { rows: vec![row(1, None), row(2, Some("X"))], retired: vec![7] };
    match cycle.advance(&c, event) {
        CycleAction::FetchStoreTypes { seqs } => assert_eq!(seqs, None),
        other => panic!("unexpected action {:?}", other),
    }
    assert!(cycle.retired().is_empty());
    let types = vec![type_row(1, 1, 11), type_row(2, 2, 21), type_row(5, 5, 51)];
    assert!(matches!(cycle.advance(&c, CycleEvent::StoreTypes(types)), CycleAction::Reindex));
    match cycle.advance(&c, CycleEvent::Completed) {
        CycleAction::WriteWatermark(moment) => {
            assert_eq!(get_str_from_naive_datetime(moment), "2025-03-03T03:00:00Z")
        }
        other => panic!("unexpected action {:?}", other),
    }
    assert!(matches!(cycle.advance(&c, CycleEvent::Completed), CycleAction::Finish(Ok(()))));
}

#[test]
fn full_cycle_without_stores_still_reindexes() {
    let c = controller();
    let start = get_naivedatetime(2025, 3, 3, 3, 0, 0).unwrap();
    let earlier = get_naivedatetime(2025, 3, 3, 2, 0, 0).unwrap();
    let (mut cycle, _read) = c.store_static_index(start);
    cycle.advance(&c, CycleEvent::Watermark(Some(earlier)));
    assert!(matches!(
        cycle.advance(&c, stores(Vec::new())),
        CycleAction::FetchStoreTypes { seqs: None }
    ));
    assert!(matches!(cycle.advance(&c, CycleEvent::StoreTypes(Vec::new())), CycleAction::Reindex));
    assert!(matches!(cycle.advance(&c, CycleEvent::Completed), CycleAction::WriteWatermark(_)));
}

#[test]
fn cycle_ends_with_the_store_that_has_no_categories() {
    let c = controller();
    let start = get_naivedatetime(2025, 3, 3, 3, 0, 0).unwrap();
    let (mut cycle, _read) = c.store_static_index(start);
    cycle.advance(&c, CycleEvent::Watermark(None));
    cycle.advance(&c, stores(vec![row(1, None), row(2, None)]));
    assert!(matches!(
        cycle.advance(&c, CycleEvent::StoreTypes(vec![type_row(1, 1, 11)])),
        CycleAction::Finish(Err(SyncError::DataIntegrity { seq: 2 }))
    ));
    assert_eq!(cycle.phase(), CyclePhase::Finished);
}

#[test]
fn cycle_ends_with_the_failure_of_an_action() {
    let c = controller();
    let start = get_naivedatetime(2025, 3, 3, 3, 0, 0).unwrap();
    let (mut cycle, _read) = c.store_dynamic_index(start);
    assert!(matches!(
        cycle.advance(&c, CycleEvent::Failed(SyncError::ConnectionExhausted)),
        CycleAction::Finish(Err(SyncError::ConnectionExhausted))
    ));
    let (mut cycle, _read) = c.store_dynamic_index(start);
    cycle.advance(&c, CycleEvent::Watermark(Some(start)));
    cycle.advance(&c, stores(vec![row(1, None)]));
    let refused = SyncError::RemoteProtocol {
        operation: "delete".into(),
        status: Some(500),
        body: "x".into(),
    };
    assert!(matches!(
        cycle.advance(&c, CycleEvent::Failed(refused)),
        CycleAction::Finish(Err(SyncError::RemoteProtocol { .. }))
    ));
}

#[test]
fn cycle_ends_on_an_event_it_was_not_waiting_for() {
    let c = controller();
    let start = get_naivedatetime(2025, 3, 3, 3, 0, 0).unwrap();
    let (mut cycle, _read) = c.store_dynamic_index(start);
    assert!(matches!(
        cycle.advance(&c, CycleEvent::Completed),
        CycleAction::Finish(Err(SyncError::Configuration { .. }))
    ));
    let (mut cycle, _read) = c.store_static_index(start);
    cycle.advance(&c, CycleEvent::Watermark(None));
    assert!(matches!(
        cycle.advance(&c, CycleEvent::Watermark(Some(start))),
        CycleAction::Finish(Err(SyncError::Configuration { .. }))
    ));
    let (mut cycle, _read) = c.store_static_index(start);
    assert!(matches!(
        cycle.advance(&c, CycleEvent::StoreTypes(Vec::new())),
        CycleAction::Finish(Err(SyncError::Configuration { .. }))
    ));
    assert!(matches!(
        cycle.advance(&c, stores(Vec::new())),
        CycleAction::Finish(Err(SyncError::Configuration { .. }))
    ));
}

#[test]
fn event_out_of_turn_is_named_in_the_failure() {
    let c = controller();
    let start = get_naivedatetime(2025, 3, 3, 3, 0, 0).unwrap();
    let (mut cycle, _read) = c.store_dynamic_index(start);
    match cycle.advance(&c, CycleEvent::Completed) {
        CycleAction::Finish(Err(SyncError::Configuration { detail })) => {
            assert_eq!(detail, "unexpected event")
        }
        other => panic!("unexpected action {:?}", other),
    }
}
