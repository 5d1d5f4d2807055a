pub mod es_repository;
pub mod es_request;
pub mod node_failover;
