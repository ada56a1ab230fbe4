//! A verified client core for a cloud IoT device-metering API: calendar
//! period types for statistics windows, a canonical request signer, a
//! token lifecycle manager, and the response-envelope handling that every
//! call passes through.

pub mod args;
pub mod auth;
pub mod calendar;
pub mod canon;
pub mod client;
pub mod clock;
pub mod crypto;
pub mod device;
pub mod error;
pub mod model;
pub mod query;
pub mod request;
pub mod strings;
pub mod year_month;
pub mod year_month_day;
