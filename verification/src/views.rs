//! Transform functions for the different views into the data: the records
//! by ISO week, by day, by epic and by issue, and the sum of their times.

use crate::dates::{Date, IsoWeek};
use crate::gitlab_api::types::{magnitude, Epic, Issue, ResponseNode};
use crate::grouping::{group_by_keys, is_grouping, key_models, GroupKey};
use crate::keys::epic_title;
use vstd::prelude::*;

verus! {

/// The day numbers of a sequence of dates.
pub open spec fn day_keys(dates: Seq<Date>) -> Seq<int> {
    Seq::new(dates.len(), |i: int| dates[i].spec_days())
}

/// The ISO weeks of a sequence of dates.
pub open spec fn week_keys(dates: Seq<Date>) -> Seq<(int, int)> {
    Seq::new(dates.len(), |i: int| dates[i].spec_iso_week())
}

/// The epics of the records, each as its title.
pub open spec fn epic_keys(nodes: Seq<&ResponseNode>) -> Seq<Option<Seq<char>>> {
    Seq::new(nodes.len(), |i: int| epic_title(nodes[i].issue.epic))
}

/// The issues of the records, each as title, link and epic.
pub open spec fn issue_keys(nodes: Seq<&ResponseNode>) -> Seq<
    (Seq<char>, Seq<char>, Option<Seq<char>>),
> {
    Seq::new(nodes.len(), |i: int| nodes[i].issue.model())
}

/// Every record has a timestamp that can be dated.
pub open spec fn all_dated(nodes: Seq<&ResponseNode>) -> bool {
    forall|i: int|
        0 <= i < nodes.len() ==> crate::dates::instant_of((#[trigger] nodes[i]).spentAt@).is_some()
}

/// `dates[i]` is a local date of `nodes[i]`, for every record.
pub open spec fn dates_of(dates: Seq<Date>, nodes: Seq<&ResponseNode>) -> bool {
    &&& dates.len() == nodes.len()
    &&& forall|i: int| 0 <= i < nodes.len() ==> (#[trigger] nodes[i]).may_fall_on(dates[i])
}

/// The sum of the magnitudes of the logged times.
pub open spec fn total_magnitude(nodes: Seq<&ResponseNode>) -> nat
    decreases nodes.len(),
{
    if nodes.len() == 0 {
        0
    } else {
        total_magnitude(nodes.drop_last()) + magnitude(nodes.last().timeSpent)
    }
}

/// The local date of each record, in order; `None` where one of the
/// timestamps cannot be read.
pub fn local_dates(nodes: &[&ResponseNode]) -> (r: Option<Vec<Date>>)
    ensures
        r.is_some() == all_dated(nodes@),
        r matches Some(dates) ==> dates_of(dates@, nodes@),
{
    let mut dates: Vec<Date> = Vec::new();
    let mut i: usize = 0;
    while i < nodes.len()
        invariant
            i <= nodes.len(),
            dates.len() == i,
            forall|j: int|
                0 <= j < i ==> crate::dates::instant_of((#[trigger] nodes@[j]).spentAt@).is_some(),
            forall|j: int| 0 <= j < i ==> (#[trigger] nodes@[j]).may_fall_on(dates@[j]),
        decreases nodes.len() - i,
    {
        match nodes[i].datetime() {
            Some(date) => {
                dates.push(date);
            },
            None => {
                return None;
            },
        }
        i = i + 1;
    }
    Some(dates)
}

/// Groups the records by the ISO weeks of the dates beside them:
/// `dates[i]` is the date of `nodes[i]`.
pub fn group_by_week<'a>(dates: &Vec<Date>, nodes: &[&'a ResponseNode]) -> (view: Vec<
    (IsoWeek, Vec<&'a ResponseNode>),
>)
    requires
        dates.len() == nodes.len(),
    ensures
        is_grouping(view@, week_keys(dates@), nodes@),
{
    let mut weeks: Vec<IsoWeek> = Vec::new();
    let mut i: usize = 0;
    while i < dates.len()
        invariant
            i <= dates.len(),
            weeks.len() == i,
            forall|j: int| 0 <= j < i ==> (#[trigger] weeks@[j]).model() == dates@[j].spec_iso_week(),
        decreases dates.len() - i,
    {
        weeks.push(dates[i].iso_week());
        i = i + 1;
    }
    proof {
        assert(key_models(weeks@) =~= week_keys(dates@));
    }
    group_by_keys(&weeks, nodes)
}

/// Groups the records by the dates beside them: `dates[i]` is the date of
/// `nodes[i]`.
pub fn group_by_day<'a>(dates: &Vec<Date>, nodes: &[&'a ResponseNode]) -> (view: Vec<
    (Date, Vec<&'a ResponseNode>),
>)
    requires
        dates.len() == nodes.len(),
    ensures
        is_grouping(view@, day_keys(dates@), nodes@),
{
    proof {
        assert(key_models(dates@) =~= day_keys(dates@));
    }
    group_by_keys(dates, nodes)
}

/// Returns the records per ISO week of their local dates, in ascending
/// order of the weeks; `None` where a timestamp cannot be read.
pub fn to_nodes_by_week<'a>(nodes: &[&'a ResponseNode]) -> (r: Option<
    Vec<(IsoWeek, Vec<&'a ResponseNode>)>,
>)
    ensures
        r.is_some() == all_dated(nodes@),
        r matches Some(view) ==> exists|dates: Seq<Date>|
            dates_of(dates, nodes@) && is_grouping(view@, #[trigger] week_keys(dates), nodes@),
{
    match local_dates(nodes) {
        Some(dates) => {
            let view = group_by_week(&dates, nodes);
            proof {
                assert(dates_of(dates@, nodes@) && is_grouping(view@, week_keys(dates@), nodes@));
            }
            Some(view)
        },
        None => None,
    }
}

/// Returns the records per local date, in ascending order of the dates;
/// `None` where a timestamp cannot be read.
pub fn to_nodes_by_day<'a>(nodes: &[&'a ResponseNode]) -> (r: Option<
    Vec<(Date, Vec<&'a ResponseNode>)>,
>)
    ensures
        r.is_some() == all_dated(nodes@),
        r matches Some(view) ==> exists|dates: Seq<Date>|
            dates_of(dates, nodes@) && is_grouping(view@, #[trigger] day_keys(dates), nodes@),
{
    match local_dates(nodes) {
        Some(dates) => {
            let view = group_by_day(&dates, nodes);
            proof {
                assert(dates_of(dates@, nodes@) && is_grouping(view@, day_keys(dates@), nodes@));
            }
            Some(view)
        },
        None => None,
    }
}

/// Returns the records per epic, the records without an epic first.
pub fn to_nodes_by_epic<'a>(nodes: &[&'a ResponseNode]) -> (view: Vec<
    (Option<Epic>, Vec<&'a ResponseNode>),
>)
    ensures
        is_grouping(view@, epic_keys(nodes@), nodes@),
{
    let mut epics: Vec<Option<Epic>> = Vec::new();
    let mut i: usize = 0;
    while i < nodes.len()
        invariant
            i <= nodes.len(),
            epics.len() == i,
            forall|j: int|
                0 <= j < i ==> (#[trigger] epics@[j]).model() == epic_title(nodes@[j].issue.epic),
        decreases nodes.len() - i,
    {
        epics.push(nodes[i].issue.epic.duplicate());
        i = i + 1;
    }
    proof {
        assert(key_models(epics@) =~= epic_keys(nodes@));
    }
    group_by_keys(&epics, nodes)
}

/// Returns the records per issue. Two issues are the same where title,
/// link and epic agree.
pub fn to_nodes_by_issue<'a>(nodes: &[&'a ResponseNode]) -> (view: Vec<
    (Issue, Vec<&'a ResponseNode>),
>)
    ensures
        is_grouping(view@, issue_keys(nodes@), nodes@),
{
    let mut issues: Vec<Issue> = Vec::new();
    let mut i: usize = 0;
    while i < nodes.len()
        invariant
            i <= nodes.len(),
            issues.len() == i,
            forall|j: int| 0 <= j < i ==> (#[trigger] issues@[j]).model() == nodes@[j].issue.model(),
        decreases nodes.len() - i,
    {
        issues.push(nodes[i].issue.duplicate());
        i = i + 1;
    }
    proof {
        assert(key_models(issues@) =~= issue_keys(nodes@));
    }
    group_by_keys(&issues, nodes)
}

/// Returns the time spent on the records, in seconds, where it fits in 64
/// bits. Each record counts with the magnitude of its time: a negative
/// entry adds to the total.
pub fn checked_time_spent_sum(nodes: &[&ResponseNode]) -> (r: Option<u64>)
    ensures
        r.is_some() == (total_magnitude(nodes@) <= u64::MAX),
        r matches Some(total) ==> total as nat == total_magnitude(nodes@),
{
    let mut total: u64 = 0;
    let mut i: usize = 0;
    while i < nodes.len()
        invariant
            i <= nodes.len(),
            total as nat == total_magnitude(nodes@.take(i as int)),
        decreases nodes.len() - i,
    {
        proof {
            assert(nodes@.take(i + 1).drop_last() =~= nodes@.take(i as int));
            lemma_total_monotone(nodes@, i + 1);
        }
        let (_, seconds) = nodes[i].timeSpent();
        if seconds > u64::MAX - total {
            return None;
        }
        total = total + seconds;
        i = i + 1;
    }
    proof {
        assert(nodes@.take(i as int) =~= nodes@);
    }
    Some(total)
}

/// Returns the time spent on the records, in seconds. Each record counts
/// with the magnitude of its time: a negative entry adds to the total.
pub fn to_time_spent_sum(nodes: &[&ResponseNode]) -> (r: u64)
    requires
        total_magnitude(nodes@) <= u64::MAX,
    ensures
        r as nat == total_magnitude(nodes@),
{
    checked_time_spent_sum(nodes).unwrap()
}

/// The total of a prefix is at most the total of the whole.
pub proof fn lemma_total_monotone(nodes: Seq<&ResponseNode>, n: int)
    requires
        0 <= n <= nodes.len(),
    ensures
        total_magnitude(nodes.take(n)) <= total_magnitude(nodes),
    decreases nodes.len() - n,
{
    if n == nodes.len() {
        assert(nodes.take(n) =~= nodes);
    } else {
        lemma_total_monotone(nodes, n + 1);
        assert(nodes.take(n + 1).drop_last() =~= nodes.take(n));
    }
}

} // verus!
