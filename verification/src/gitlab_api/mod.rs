//! Typings for the GitLab API. These types are specific to the GraphQL query
//! that fetches the timelogs of one user.

pub mod text;
pub mod types;
