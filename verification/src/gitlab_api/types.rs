//! The records and the two shapes of a GraphQL response.

use crate::dates::{
    date_at_offset, instant_of, local_date, local_day, parse_instant, valid_offset, Date,
};
use vstd::prelude::*;

verus! {

#[derive(Clone, Debug, PartialEq, Eq, PartialOrd, Ord)]
pub struct Epic {
    pub title: String,
}

#[derive(Clone, Debug, PartialEq, Eq, PartialOrd, Ord)]
pub struct Issue {
    pub title: String,
    /// Full http link to issue.
    pub webUrl: String,
    pub epic: Option<Epic>,
}

#[derive(Clone, Debug, PartialEq, Eq, PartialOrd, Ord)]
pub struct Group {
    pub fullName: String,
}

#[derive(Clone, Debug, PartialEq, Eq, PartialOrd, Ord)]
pub struct Project {
    pub group: Option<Group>,
}

/// One logged time entry.
#[derive(Clone, Debug, PartialEq, Eq, PartialOrd, Ord)]
pub struct ResponseNode {
    /// RFC 3339 timestamp, as the server sent it.
    pub spentAt: String,
    /// Seconds. GitLab allows negative times, so the raw value is signed.
    pub timeSpent: i64,
    pub summary: Option<String>,
    pub issue: Issue,
    pub project: Project,
}

/// The magnitude of a signed number of seconds.
pub open spec fn magnitude(secs: i64) -> nat {
    if secs >= 0 {
        secs as nat
    } else {
        (-(secs as int)) as nat
    }
}

impl ResponseNode {
    /// The title of the epic of the issue, where it has one.
    pub open spec fn spec_epic_name(&self) -> Option<Seq<char>> {
        match self.issue.epic {
            Some(e) => Some(e.title@),
            None => None,
        }
    }

    /// The full name of the group of the project, where it has one.
    pub open spec fn spec_group_name(&self) -> Option<Seq<char>> {
        match self.project.group {
            Some(g) => Some(g.fullName@),
            None => None,
        }
    }

    /// The record has a timestamp that can be dated, and `date` is the
    /// calendar date on which its instant falls at some offset from UTC.
    pub open spec fn may_fall_on(&self, date: Date) -> bool {
        &&& instant_of(self.spentAt@).is_some()
        &&& exists|offset: int|
            valid_offset(offset) && date.spec_days() == #[trigger] local_day(
                instant_of(self.spentAt@).unwrap(),
                offset,
            )
    }

    /// Splits the logged time into a sign flag and a magnitude in seconds.
    /// The flag is `true` for a strictly positive entry only: an entry of
    /// zero seconds is not positive.
    pub fn timeSpent(&self) -> (r: (bool, u64))
        ensures
            r.0 == (self.timeSpent > 0),
            r.1 as nat == magnitude(self.timeSpent),
    {
        let raw: i64 = self.timeSpent;
        if raw >= 0 {
            (raw > 0, raw as u64)
        } else if raw == i64::MIN {
            (false, 9223372036854775808u64)
        } else {
            (false, (-raw) as u64)
        }
    }

    pub fn epic_name(&self) -> (r: Option<&str>)
        ensures
            r.is_some() == self.issue.epic.is_some(),
            r matches Some(s) ==> Some(s@) == self.spec_epic_name(),
    {
        match &self.issue.epic {
            Some(e) => Some(e.title.as_str()),
            None => None,
        }
    }

    /// The calendar date of the record in the time zone of this process,
    /// so that an entry made on a Monday at `00:00` local time is not
    /// accounted to the Sunday on which it falls in UTC. `None` where the
    /// timestamp cannot be read.
    pub fn datetime(&self) -> (r: Option<Date>)
        ensures
            r.is_some() == instant_of(self.spentAt@).is_some(),
            r matches Some(d) ==> self.may_fall_on(d),
    {
        match parse_instant(self.spentAt.as_str()) {
            Some(instant) => local_date(instant),
            None => None,
        }
    }

    /// The calendar date of the record for an observer whose clock is
    /// `offset` seconds ahead of UTC.
    pub fn date_at(&self, offset: i32) -> (r: Option<Date>)
        ensures
            r.is_some() == (instant_of(self.spentAt@).is_some() && valid_offset(offset as int)),
            r matches Some(d) ==> d.spec_days() == local_day(
                instant_of(self.spentAt@).unwrap(),
                offset as int,
            ),
    {
        match parse_instant(self.spentAt.as_str()) {
            Some(instant) => date_at_offset(instant, offset),
            None => None,
        }
    }

    pub fn has_epic(&self, title: &str) -> (r: bool)
        ensures
            r == (self.spec_epic_name() == Some(title@)),
    {
        match &self.issue.epic {
            Some(e) => e.title == title.to_owned(),
            None => false,
        }
    }

    pub fn has_group(&self, name: &str) -> (r: bool)
        ensures
            r == (self.spec_group_name() == Some(name@)),
    {
        match &self.project.group {
            Some(g) => g.fullName == name.to_owned(),
            None => false,
        }
    }

    pub fn group_name(&self) -> (r: Option<&str>)
        ensures
            r.is_some() == self.project.group.is_some(),
            r matches Some(s) ==> Some(s@) == self.spec_group_name(),
    {
        match &self.project.group {
            Some(g) => Some(g.fullName.as_str()),
            None => None,
        }
    }
}

#[derive(Clone, Debug, PartialEq, Eq, PartialOrd, Ord)]
pub struct ResponsePageInfo {
    pub hasPreviousPage: bool,
    pub startCursor: Option<String>,
}

#[derive(Clone, Debug, PartialEq, Eq, PartialOrd, Ord)]
pub struct ResponseTimelogs {
    pub nodes: Vec<ResponseNode>,
    pub pageInfo: ResponsePageInfo,
}

#[derive(Clone, Debug, PartialEq, Eq, PartialOrd, Ord)]
pub struct ResponseData {
    pub timelogs: ResponseTimelogs,
}

#[derive(Clone, Debug, PartialEq, Eq, PartialOrd, Ord)]
pub struct GraphQLErrorLocation {
    pub line: u64,
    pub column: u64,
}

#[derive(Clone, Debug, PartialEq, Eq, PartialOrd, Ord)]
pub struct GraphQLErrorResponse {
    pub message: String,
    pub locations: Vec<GraphQLErrorLocation>,
}

#[derive(Clone, Debug, PartialEq, Eq, PartialOrd, Ord)]
pub struct GraphQLErrorsResponse(pub Vec<GraphQLErrorResponse>);

/// The typed GraphQL response: either the payload or the list of errors.
#[derive(Clone, Debug, PartialEq, Eq, PartialOrd, Ord)]
pub enum Response {
    PayloadResponse(ResponseData),
    ErrorResponse(GraphQLErrorsResponse),
}

impl Response {
    /// Transforms the GraphQL response to a Rust [`Result`].
    pub fn to_result(self) -> (r: Result<ResponseData, GraphQLErrorsResponse>)
        ensures
            r == match self {
                Response::PayloadResponse(payload) => Ok::<ResponseData, GraphQLErrorsResponse>(payload),
                Response::ErrorResponse(errors) => Err(errors),
            },
    {
        match self {
            Response::PayloadResponse(payload) => Ok(payload),
            Response::ErrorResponse(errors) => Err(errors),
        }
    }
}

/// The GraphQL response as it is on the wire, where `data` and `errors` are
/// two optional members of one object.
#[derive(Clone, Debug, PartialEq, Eq, PartialOrd, Ord)]
pub struct ResponseSerialized {
    pub data: Option<ResponseData>,
    pub errors: Option<GraphQLErrorsResponse>,
}

impl ResponseSerialized {
    /// A well-formed response holds exactly one of `data` and `errors`.
    pub open spec fn well_formed(&self) -> bool {
        self.data.is_some() != self.errors.is_some()
    }

    pub fn is_well_formed(&self) -> (r: bool)
        ensures
            r == self.well_formed(),
    {
        self.data.is_some() != self.errors.is_some()
    }

    /// Tells the two shapes of a well-formed response apart.
    pub fn to_typed(self) -> (r: Response)
        requires
            self.well_formed(),
        ensures
            r == match self.data {
                Some(data) => Response::PayloadResponse(data),
                None => Response::ErrorResponse(self.errors.unwrap()),
            },
    {
        match self.data {
            Some(data) => Response::PayloadResponse(data),
            None => Response::ErrorResponse(self.errors.unwrap()),
        }
    }
}

} // verus!
