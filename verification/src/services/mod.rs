pub mod aggregation;
pub mod engine_model;
pub mod es_query_service;
pub mod query_service;
