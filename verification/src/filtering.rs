//! Filters over the records of a response: by time, by group and by epic.
//! A record is kept where every filter that is given admits it.

use crate::dates::{instant_of, Date};
use crate::gitlab_api::types::{ResponseData, ResponseNode};
use vstd::prelude::*;

verus! {

pub enum EpicFilter<'a> {
    HasEpic(&'a str),
    HasNoEpic,
}

pub enum GroupFilter<'a> {
    HasGroup(&'a str),
    HasNoGroup,
}

pub enum TimeFilter {
    AfterInclusive(Date),
    BeforeInclusive(Date),
    /// The first and the last date admitted.
    WithinInclusive(Date, Date),
    Week {
        year: i32,
        /// ISO week id.
        week: u32,
    },
}

impl<'a> EpicFilter<'a> {
    pub open spec fn admits(self, node: &ResponseNode) -> bool {
        match self {
            EpicFilter::HasEpic(title) => node.spec_epic_name() == Some(title@),
            EpicFilter::HasNoEpic => node.issue.epic.is_none(),
        }
    }

    pub fn accepts(&self, node: &ResponseNode) -> (r: bool)
        ensures
            r == self.admits(node),
    {
        match self {
            EpicFilter::HasEpic(title) => node.has_epic(title),
            EpicFilter::HasNoEpic => node.epic_name().is_none(),
        }
    }
}

impl<'a> GroupFilter<'a> {
    pub open spec fn admits(self, node: &ResponseNode) -> bool {
        match self {
            GroupFilter::HasGroup(name) => node.spec_group_name() == Some(name@),
            GroupFilter::HasNoGroup => node.project.group.is_none(),
        }
    }

    pub fn accepts(&self, node: &ResponseNode) -> (r: bool)
        ensures
            r == self.admits(node),
    {
        match self {
            GroupFilter::HasGroup(name) => node.has_group(name),
            GroupFilter::HasNoGroup => node.group_name().is_none(),
        }
    }
}

impl TimeFilter {
    pub open spec fn admits(self, date: Date) -> bool {
        match self {
            TimeFilter::AfterInclusive(first) => first.spec_days() <= date.spec_days(),
            TimeFilter::BeforeInclusive(last) => date.spec_days() <= last.spec_days(),
            TimeFilter::WithinInclusive(first, last) => first.spec_days() <= date.spec_days()
                <= last.spec_days(),
            TimeFilter::Week { year, week } => date.spec_iso_week() == (year as int, week as int),
        }
    }

    pub fn accepts(&self, date: Date) -> (r: bool)
        ensures
            r == self.admits(date),
    {
        match self {
            TimeFilter::AfterInclusive(first) => first.days() <= date.days(),
            TimeFilter::BeforeInclusive(last) => date.days() <= last.days(),
            TimeFilter::WithinInclusive(first, last) => first.days() <= date.days() && date.days()
                <= last.days(),
            TimeFilter::Week { year, week } => {
                let found = date.iso_week();
                found.year == *year && found.week == *week
            },
        }
    }
}

/// The group filter and the epic filter admit the record, as far as they
/// are given.
pub open spec fn attributes_admitted(
    node: &ResponseNode,
    group: Option<GroupFilter>,
    epic: Option<EpicFilter>,
) -> bool {
    &&& group matches Some(f) ==> f.admits(node)
    &&& epic matches Some(f) ==> f.admits(node)
}

/// Every filter that is given admits the record, dated `date`.
pub open spec fn admitted(
    node: &ResponseNode,
    date: Date,
    time: Option<TimeFilter>,
    group: Option<GroupFilter>,
    epic: Option<EpicFilter>,
) -> bool {
    &&& time matches Some(f) ==> f.admits(date)
    &&& attributes_admitted(node, group, epic)
}

/// The records that the filters admit, in their order, where `dates[i]`
/// is the date of `nodes[i]`. Without a time filter the dates play no part.
pub open spec fn filtered<'a>(
    nodes: Seq<ResponseNode>,
    dates: Seq<Date>,
    time: Option<TimeFilter>,
    group: Option<GroupFilter<'a>>,
    epic: Option<EpicFilter<'a>>,
) -> Seq<&'a ResponseNode>
    decreases nodes.len(),
{
    if nodes.len() == 0 {
        Seq::empty()
    } else {
        let init = filtered(nodes.drop_last(), dates, time, group, epic);
        if admitted(&nodes.last(), dates[nodes.len() - 1], time, group, epic) {
            init.push(&nodes.last())
        } else {
            init
        }
    }
}

/// The time filter has a date to go by for every record.
pub open spec fn datable(nodes: Seq<ResponseNode>, time: Option<TimeFilter>) -> bool {
    time.is_some() ==> forall|i: int|
        0 <= i < nodes.len() ==> instant_of((#[trigger] nodes[i]).spentAt@).is_some()
}

/// `dates` holds a local date of each record, where there is a time filter.
pub open spec fn dated_for(dates: Seq<Date>, nodes: Seq<ResponseNode>, time: Option<TimeFilter>) -> bool {
    time.is_some() ==> dates.len() == nodes.len() && forall|i: int|
        0 <= i < nodes.len() ==> (#[trigger] nodes[i]).may_fall_on(dates[i])
}

/// Whether the group filter and the epic filter admit one record.
pub fn accepts_attributes(
    node: &ResponseNode,
    group: &Option<GroupFilter>,
    epic: &Option<EpicFilter>,
) -> (r: bool)
    ensures
        r == attributes_admitted(node, *group, *epic),
{
    let by_group = match group {
        Some(f) => f.accepts(node),
        None => true,
    };
    let by_epic = match epic {
        Some(f) => f.accepts(node),
        None => true,
    };
    by_group && by_epic
}

/// Filters the records by the dates beside them, `dates[i]` being the
/// date of `nodes[i]`, and returns those that match all filters, in their
/// order. Without a time filter the dates are not looked at.
pub fn filter_dated<'a>(
    nodes: &'a Vec<ResponseNode>,
    dates: &Vec<Date>,
    time_filter: &Option<TimeFilter>,
    group_filter: &Option<GroupFilter<'a>>,
    epic_filter: &Option<EpicFilter<'a>>,
) -> (kept: Vec<&'a ResponseNode>)
    requires
        time_filter.is_some() ==> dates.len() == nodes.len(),
    ensures
        kept@ == filtered(nodes@, dates@, *time_filter, *group_filter, *epic_filter),
{
    let mut kept: Vec<&'a ResponseNode> = Vec::new();
    let mut i: usize = 0;
    while i < nodes.len()
        invariant
            i <= nodes.len(),
            time_filter.is_some() ==> dates.len() == nodes.len(),
            kept@ == filtered(
                nodes@.take(i as int),
                dates@,
                *time_filter,
                *group_filter,
                *epic_filter,
            ),
        decreases nodes.len() - i,
    {
        let node = &nodes[i];
        let by_time = match time_filter {
            Some(f) => f.accepts(dates[i]),
            None => true,
        };
        proof {
            assert(nodes@.take(i + 1).drop_last() =~= nodes@.take(i as int));
            assert(nodes@.take(i + 1).last() == nodes@[i as int]);
        }
        if by_time && accepts_attributes(node, group_filter, epic_filter) {
            kept.push(node);
        }
        i = i + 1;
    }
    proof {
        assert(nodes@.take(i as int) =~= nodes@);
    }
    kept
}

/// Filters the records and returns those that match all filters, in their
/// order. A time filter goes by the local date of each record, so with one
/// the result is `None` where a timestamp cannot be read.
pub fn filter_timelogs<'a>(
    response: &'a ResponseData,
    time_filter: Option<TimeFilter>,
    group_filter: Option<GroupFilter<'a>>,
    epic_filter: Option<EpicFilter<'a>>,
) -> (r: Option<Vec<&'a ResponseNode>>)
    ensures
        r.is_some() == datable(response.timelogs.nodes@, time_filter),
        r matches Some(kept) ==> exists|dates: Seq<Date>|
            dated_for(dates, response.timelogs.nodes@, time_filter) && kept@ == #[trigger] filtered(
                response.timelogs.nodes@,
                dates,
                time_filter,
                group_filter,
                epic_filter,
            ),
{
    let nodes = &response.timelogs.nodes;
    let mut dates: Vec<Date> = Vec::new();
    if time_filter.is_some() {
        let mut i: usize = 0;
        while i < nodes.len()
            invariant
                nodes == &response.timelogs.nodes,
                time_filter.is_some(),
                i <= nodes.len(),
                dates.len() == i,
                forall|j: int| 0 <= j < i ==> (#[trigger] nodes@[j]).may_fall_on(dates@[j]),
            decreases nodes.len() - i,
        {
            match nodes[i].datetime() {
                Some(date) => {
                    dates.push(date);
                },
                None => {
                    return None;
                },
            }
            i = i + 1;
        }
    }
    let kept = filter_dated(nodes, &dates, &time_filter, &group_filter, &epic_filter);
    proof {
        assert(dated_for(dates@, nodes@, time_filter));
    }
    Some(kept)
}

} // verus!
