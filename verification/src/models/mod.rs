pub mod store_to_elastic;
pub mod store_types;
