//! Review-tracking reports for standards working groups: label taxonomies, origin labels,
//! due dates, issue locators, search queries and report plans.
pub mod config;
pub mod date;
pub mod due;
pub mod issue;
pub mod locator;
pub mod meeting;
pub mod order;
pub mod origin;
pub mod query;
pub mod repos;
pub mod report;
pub mod requests;
pub mod settings;
pub mod sort;
pub mod source;
pub mod status;
pub mod table;
pub mod text;
