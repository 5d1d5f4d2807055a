use yummy_indexing::configuration::index_schedules_config::{IndexSchedules, IndexSchedulesConfig};
use yummy_indexing::error::SyncError;
use yummy_indexing::models::store_to_elastic::{Decimal, DistinctStoreResult};
use yummy_indexing::repository::es_request::{AliasAction, EsRequest};
use yummy_indexing::services::es_query_service::{
    unique_value_of, EsPlan, EsQueryServicePub, EsStep, StaticIndexing, StaticPhase,
};
use yummy_indexing::utils_module::time_utils::get_naivedatetime;

fn definition(setting_path: Option<&str>, es_batch_size: usize) -> IndexSchedules {
    IndexSchedules {
        index_name: "stores".to_string(),
        time: "0 0 * * * *".to_string(),
        indexing_type: "static".to_string(),
        setting_path: setting_path.map(|p| p.to_string()),
        function_name: "store_static_index".to_string(),
        sql_batch_size: 100,
        es_batch_size,
    }
}

fn entity(seq: i32) -> DistinctStoreResult {
    DistinctStoreResult::new(
        "2025-02-20T01:02:03Z".to_string(),
        seq,
        format!("store {}", seq),
        None,
        None,
        Decimal { mantissa: 1, scale: 0 },
        Decimal { mantissa: 2, scale: 0 },
        false,
        Vec::new(),
        None,
        None,
        None,
        Vec::new(),
        Vec::new(),
    )
}

fn begin(data_len: usize, batch: usize) -> (StaticIndexing, EsRequest) {
    let now = get_naivedatetime(2025, 2, 20, 1, 2, 3).unwrap();
    EsQueryServicePub::new()
        .post_indexing_data_by_bulk_static(&definition(Some("s.json"), batch), data_len, now, "{\"a\":1}")
        .unwrap()
}

fn sent(step: EsStep) -> EsRequest {
    match step {
        EsStep::Send(request) => request,
        other => panic!("expected a request, got {:?}", other),
    }
}

#[test]
fn full_reindex_creates_an_index_named_by_alias_and_moment() {
    let (run, request) = begin(0, 10);
    assert_eq!(run.new_index_name(), "stores-20250220010203");
    assert_eq!(run.phase(), StaticPhase::Creating);
    assert!(matches!(request, EsRequest::CreateIndex { index, settings }
        if index == "stores-20250220010203" && settings == "{\"a\":1}"));
}

#[test]
fn full_reindex_without_settings_file_is_refused() {
    let now = get_naivedatetime(2025, 2, 20, 1, 2, 3).unwrap();
    let refused = EsQueryServicePub::new()
        .post_indexing_data_by_bulk_static(&definition(None, 10), 3, now, "{}");
    assert!(matches!(refused, Err(SyncError::Configuration { .. })));
}

#[test]
fn full_reindex_moves_the_alias_and_deletes_the_old_index() {
    let (mut run, _create) = begin(5, 2);
    let mut batches = Vec::new();
    let mut step = run.advance(Ok(None));
    loop {
        match sent(step) {
            EsRequest::Bulk { index, start, end } => {
                assert_eq!(index, "stores-20250220010203");
                assert_eq!(run.phase(), StaticPhase::Inserting);
                batches.push((start, end));
                step = run.advance(Ok(None));
            }
            EsRequest::GetIndex { index } => {
                assert_eq!(index, "stores");
                break;
            }
            other => panic!("unexpected request {:?}", other),
        }
    }
    assert_eq!(batches, vec![(0, 2), (2, 4), (4, 5)]);
    assert_eq!(run.phase(), StaticPhase::Probing);
    let resolve = sent(run.advance(Ok(Some("{\"stores\":{}}".to_string()))));
    assert!(matches!(resolve, EsRequest::GetAlias { name } if name == "stores"));
    let alias_answer = "{\"stores-20250101000000\":{\"aliases\":{\"stores\":{}}}}".to_string();
    match sent(run.advance(Ok(Some(alias_answer)))) {
        EsRequest::UpdateAliases { actions } => {
            assert_eq!(actions.len(), 2);
            assert!(matches!(&actions[0], AliasAction::Remove { index, alias }
                if index == "stores-20250101000000" && alias == "stores"));
            assert!(matches!(&actions[1], AliasAction::Add { index, alias }
                if index == "stores-20250220010203" && alias == "stores"));
        }
        other => panic!("unexpected request {:?}", other),
    }
    assert_eq!(run.phase(), StaticPhase::Swapping);
    assert!(matches!(sent(run.advance(Ok(None))),
        EsRequest::DeleteIndex { index } if index == "stores-20250101000000"));
    assert!(matches!(sent(run.advance(Ok(None))), EsRequest::Refresh { index } if index == "stores"));
    assert!(matches!(run.advance(Ok(None)), EsStep::Done(Ok(()))));
    assert_eq!(run.phase(), StaticPhase::Finished);
}

#[test]
fn full_reindex_creates_the_alias_where_none_exists() {
    let (mut run, _create) = begin(0, 2);
    assert!(matches!(sent(run.advance(Ok(None))), EsRequest::GetIndex { .. }));
    let missing = SyncError::RemoteProtocol {
        operation: "check_index_exist()".to_string(),
        status: Some(404),
        body: "{\"status\":404}".to_string(),
    };
    match sent(run.advance(Err(missing))) {
        EsRequest::UpdateAliases { actions } => {
            assert_eq!(actions.len(), 1);
            assert!(matches!(&actions[0], AliasAction::Add { index, alias }
                if index == "stores-20250220010203" && alias == "stores"));
        }
        other => panic!("unexpected request {:?}", other),
    }
    assert_eq!(run.phase(), StaticPhase::Aliasing);
    assert!(matches!(sent(run.advance(Ok(None))), EsRequest::Refresh { index } if index == "stores"));
    assert!(matches!(run.advance(Ok(None)), EsStep::Done(Ok(()))));
}

#[test]
fn full_reindex_ends_with_the_failure_of_a_request() {
    let (mut run, _create) = begin(4, 2);
    let down = SyncError::AllNodesFailed { last_error: Some("refused".to_string()) };
    assert!(matches!(run.advance(Err(down)),
        EsStep::Done(Err(SyncError::AllNodesFailed { last_error: Some(e) })) if e == "refused"));
    assert_eq!(run.phase(), StaticPhase::Finished);
    assert!(matches!(run.advance(Ok(None)), EsStep::Done(Err(SyncError::Parse { .. }))));

    let (mut run, _create) = begin(4, 2);
    assert!(matches!(sent(run.advance(Ok(None))), EsRequest::Bulk { start: 0, end: 2, .. }));
    let refused = SyncError::RemoteProtocol {
        operation: "bulk_query()".into(),
        status: Some(429),
        body: "x".into(),
    };
    assert!(matches!(run.advance(Err(refused)),
        EsStep::Done(Err(SyncError::RemoteProtocol { .. }))));
}

#[test]
fn full_reindex_ends_where_the_alias_names_no_index() {
    for answer in [Some("{}".to_string()), Some("[1,2]".to_string()), Some("oops".to_string()), None]
    {
        let (mut run, _create) = begin(0, 2);
        assert!(matches!(sent(run.advance(Ok(None))), EsRequest::GetIndex { .. }));
        assert!(matches!(sent(run.advance(Ok(None))), EsRequest::GetAlias { .. }));
        assert!(matches!(run.advance(Ok(answer)),
            EsStep::Done(Err(SyncError::Parse { detail })) if detail == "no index name in the alias"));
        assert_eq!(run.phase(), StaticPhase::Finished);
    }
}

#[test]
fn old_index_is_the_first_key_of_the_alias_answer() {
    let (mut run, _create) = begin(0, 2);
    run.advance(Ok(None));
    run.advance(Ok(None));
    let answer = "{\"stores-b\":{},\"stores-a\":{}}".to_string();
    match sent(run.advance(Ok(Some(answer)))) {
        EsRequest::UpdateAliases { actions } => {
            assert!(matches!(&actions[0], AliasAction::Remove { index, .. } if index == "stores-a"));
        }
        other => panic!("unexpected request {:?}", other),
    }
}

#[test]
fn incremental_insert_goes_to_the_alias_in_batches() {
    let plan = EsQueryServicePub::new().post_indexing_data_by_bulk_dynamic(&definition(None, 2), 3);
    assert_eq!(plan.len(), 2);
    assert!(matches!(&plan[0], EsRequest::Bulk { index, start: 0, end: 2 } if index == "stores"));
    assert!(matches!(&plan[1], EsRequest::Bulk { index, start: 2, end: 3 } if index == "stores"));
}

#[test]
fn update_deletes_by_key_then_inserts_each_entity() {
    let data = vec![entity(4), entity(9)];
    let plan = EsQueryServicePub::new().update_index(&definition(None, 2), &data, "seq").unwrap();
    assert_eq!(plan.len(), 4);
    assert!(matches!(&plan[0], EsRequest::DeleteByQuery { index, field, value: 4 }
        if index == "stores" && field == "seq"));
    assert!(matches!(&plan[1], EsRequest::IndexEntity { index, position: 0 } if index == "stores"));
    assert!(matches!(&plan[2], EsRequest::DeleteByQuery { value: 9, .. }));
    assert!(matches!(&plan[3], EsRequest::IndexEntity { position: 1, .. }));
}

#[test]
fn delete_deletes_by_key_for_each_entity() {
    let data = vec![entity(4), entity(9), entity(-1)];
    let plan = EsQueryServicePub::new().delete_index(&definition(None, 2), &data, "seq").unwrap();
    assert_eq!(plan.len(), 3);
    assert!(matches!(&plan[0], EsRequest::DeleteByQuery { index, field, value: 4 }
        if index == "stores" && field == "seq"));
    assert!(matches!(&plan[1], EsRequest::DeleteByQuery { value: 9, .. }));
    assert!(matches!(&plan[2], EsRequest::DeleteByQuery { value: -1, .. }));
}

#[test]
fn key_is_read_from_the_whole_number_field_only() {
    let service = EsQueryServicePub::new();
    let data = vec![entity(4)];
    assert!(matches!(service.delete_index(&definition(None, 2), &data, "name"),
        Err(SyncError::Parse { detail }) if detail == "the unique field holds no whole number"));
    assert!(matches!(service.update_index(&definition(None, 2), &data, "lat"),
        Err(SyncError::Parse { .. })));
    assert!(service.delete_index(&definition(None, 2), &Vec::new(), "name").unwrap().is_empty());
    assert!(service.update_index(&definition(None, 2), &Vec::new(), "name").unwrap().is_empty());
    assert_eq!(unique_value_of(&data[0], "seq"), Some(4));
    assert_eq!(unique_value_of(&data[0], "Seq"), None);
    assert_eq!(unique_value_of(&data[0], ""), None);
}

#[test]
fn definition_hands_out_its_fields() {
    let d = definition(Some("settings/stores.json"), 50);
    assert_eq!(d.index_name(), "stores");
    assert_eq!(d.time(), "0 0 * * * *");
    assert_eq!(d.indexing_type(), "static");
    assert_eq!(d.setting_path(), &Some("settings/stores.json".to_string()));
    assert_eq!(d.function_name(), "store_static_index");
    assert_eq!(*d.sql_batch_size(), 100);
    assert_eq!(*d.es_batch_size(), 50);
    let copy = d.clone();
    assert_eq!(copy.index_name, "stores");
    assert_eq!(copy.setting_path, d.setting_path);
    assert_eq!(copy.es_batch_size, 50);
    let config = IndexSchedulesConfig { index: vec![d, copy] };
    assert_eq!(config.index().len(), 2);
}

#[test]
fn newest_document_is_asked_for_by_its_timestamp() {
    let service = EsQueryServicePub::new();
    match service.recent_index_datetime_query(&definition(None, 2), "timestamp") {
        EsRequest::Search { index, query } => {
            assert_eq!(index, "stores");
            assert_eq!(
                query,
                "{\"size\":1,\"sort\":[{\"timestamp\":\"desc\"}],\"_source\":[\"timestamp\"]}"
            );
        }
        other => panic!("unexpected request {:?}", other),
    }
    match service.recent_index_datetime_query(&definition(None, 2), "a\"b") {
        EsRequest::Search { query, .. } => {
            assert_eq!(query, "{\"size\":1,\"sort\":[{\"a\\\"b\":\"desc\"}],\"_source\":[\"a\\\"b\"]}");
        }
        other => panic!("unexpected request {:?}", other),
    }
}

#[test]
fn moment_of_the_newest_document_is_read_from_the_first_hit() {
    let service = EsQueryServicePub::new();
    let answer = "{\"hits\":{\"hits\":[{\"_source\":{\"timestamp\":\"2025-02-20T01:02:03Z\"}},\
                  {\"_source\":{\"timestamp\":\"2024-01-01T00:00:00Z\"}}]}}";
    let moment = service.get_recent_index_datetime(answer, "timestamp").unwrap();
    assert_eq!((moment.date().year(), moment.date().month(), moment.date().day()), (2025, 2, 20));
    assert_eq!((moment.time().hour(), moment.time().minute(), moment.time().second()), (1, 2, 3));
    for unreadable in [
        "{\"hits\":{\"hits\":[]}}",
        "{\"hits\":{\"hits\":[{\"_source\":{\"timestamp\":17}}]}}",
        "{\"hits\":{\"hits\":[{\"_source\":{\"timestamp\":\"yesterday\"}}]}}",
        "{\"hits\":{}}",
        "not json",
    ] {
        assert!(matches!(
            service.get_recent_index_datetime(unreadable, "timestamp"),
            Err(SyncError::Parse { .. })
        ));
    }
    assert!(service.get_recent_index_datetime(answer, "written").is_err());
}

#[test]
fn full_reindex_ends_where_the_probe_fails_otherwise_than_not_found() {
    let failures = vec![
        SyncError::AllNodesFailed { last_error: Some("refused".to_string()) },
        SyncError::RemoteProtocol {
            operation: "check_index_exist()".to_string(),
            status: Some(503),
            body: "busy".to_string(),
        },
        SyncError::ConnectionExhausted,
    ];
    for failure in failures {
        let (mut run, _create) = begin(0, 2);
        assert!(matches!(sent(run.advance(Ok(None))), EsRequest::GetIndex { .. }));
        assert!(matches!(run.advance(Err(failure)), EsStep::Done(Err(_))));
        assert_eq!(run.phase(), StaticPhase::Finished);
    }
}

#[test]
fn full_reindex_without_settings_file_is_refused_whatever_the_batch_size() {
    let now = get_naivedatetime(2025, 2, 20, 1, 2, 3).unwrap();
    let refused = EsQueryServicePub::new()
        .post_indexing_data_by_bulk_static(&definition(None, 0), 3, now, "{}");
    assert!(matches!(refused, Err(SyncError::Configuration { .. })));
}

#[test]
fn documents_are_deleted_key_by_key() {
    let plan = EsQueryServicePub::new().delete_documents(&definition(None, 2), &vec![7, 3], "seq");
    assert_eq!(plan.len(), 2);
    assert!(matches!(&plan[0], EsRequest::DeleteByQuery { index, field, value: 7 }
        if index == "stores" && field == "seq"));
    assert!(matches!(&plan[1], EsRequest::DeleteByQuery { value: 3, .. }));
}

#[test]
fn plan_stops_at_the_first_request_that_fails() {
    let requests = EsQueryServicePub::new().post_indexing_data_by_bulk_dynamic(&definition(None, 2), 5);
    let mut plan = EsPlan::new(requests);
    assert!(matches!(plan.current(), Some(EsRequest::Bulk { start: 0, end: 2, .. })));
    assert!(plan.advance(Ok(None)).is_none());
    assert!(matches!(plan.current(), Some(EsRequest::Bulk { start: 2, end: 4, .. })));
    let refused = SyncError::RemoteProtocol {
        operation: "bulk_query()".into(),
        status: Some(500),
        body: "x".into(),
    };
    assert!(matches!(plan.advance(Err(refused)),
        Some(Err(SyncError::RemoteProtocol { status: Some(500), .. }))));
    assert!(plan.current().is_none());
    assert!(matches!(plan.advance(Ok(None)), Some(Err(_))));
    assert!(plan.current().is_none());
}

#[test]
fn plan_succeeds_after_its_last_request() {
    let requests = EsQueryServicePub::new().post_indexing_data_by_bulk_dynamic(&definition(None, 2), 3);
    let mut plan = EsPlan::new(requests);
    assert!(plan.advance(Ok(None)).is_none());
    assert!(matches!(plan.current(), Some(EsRequest::Bulk { start: 2, end: 3, .. })));
    assert!(matches!(plan.advance(Ok(Some("{}".to_string()))), Some(Ok(()))));
    assert!(plan.current().is_none());
    let empty = EsPlan::new(Vec::new());
    assert!(empty.current().is_none());
}
