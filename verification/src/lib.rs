pub mod filters;
pub mod priority;
pub mod report;
pub mod tasks;
pub mod time;
pub mod tz;
