//! Time-tracking reports over the timelog records of a GitLab instance:
//! the record model, the pagination of the fetch, filters, and the grouped
//! views (by ISO week, by day, by issue, by epic) with their duration sums.
#![allow(non_snake_case)]

pub mod cli;
pub mod dates;
pub mod fetch;
pub mod filtering;
pub mod gitlab_api;
pub mod grouping;
pub mod keys;
pub mod numerals;
pub mod report;
pub mod views;
