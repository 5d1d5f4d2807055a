pub mod main_controller;
pub mod store_cycle;
