//! Verified core of a Yandex Metrika goals and statistics service.
//!
//! The library holds the data model of the service, the decisions it takes
//! on each request, the text it builds for the Metrika API and the way it
//! turns Metrika answers into the goals it stores and reports.

pub mod decimal;
pub mod error;
pub mod goals;
pub mod goal_client;
pub mod counter_info;
pub mod dates;
pub mod statistics;
pub mod post_model;
pub mod requests;
pub mod schema;
