pub mod index_schedules_config;
