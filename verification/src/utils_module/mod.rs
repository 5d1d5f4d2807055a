pub mod calendar;
pub mod time_utils;
