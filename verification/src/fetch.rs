//! Fetching the timelogs page by page.
//!
//! The requests themselves are sent by the caller. This module says what
//! to send ([`page_request`]) and decides, from the records collected so
//! far and what came of the request, whether another page is to be
//! requested, the fetch is complete, or it has failed ([`accept_reply`]).

use crate::dates::{valid_offset, Date, FIRST_CIVIL_DAY, LAST_CIVIL_DAY};
use crate::gitlab_api::types::{
    GraphQLErrorsResponse, Response, ResponseData, ResponseNode, ResponsePageInfo,
    ResponseSerialized, ResponseTimelogs,
};
use chrono::{FixedOffset, Local, NaiveDate, NaiveTime};
use vstd::multiset::Multiset;
use vstd::prelude::*;
use vstd::seq_lib::lemma_multiset_commutative;
use vstd::string::*;

verus! {

/// The text in which every occurrence of `pattern` in `text`, found from
/// the left and without overlap, is replaced by `with`, as `str::replace`
/// of the standard library returns it.
pub uninterp spec fn replaced(text: Seq<char>, pattern: Seq<char>, with: Seq<char>) -> Seq<char>;

/// Calls `str::replace`. Trusted: the result is the named function of the
/// three texts.
#[verifier::external_body]
fn replace_all(text: &str, pattern: &str, with: &str) -> (r: String)
    ensures
        r@ == replaced(text@, pattern@, with@),
{
    text.replace(pattern, with)
}

/// Midnight of the date with the given day number, for a clock `offset`
/// seconds ahead of UTC, as `chrono` writes a date and time with its
/// offset: `2024-06-01 00:00:00 +02:00`.
pub uninterp spec fn midnight_text(days: int, offset: int) -> Seq<char>;

/// Asks `chrono::Local` for the offset from UTC at local midnight of the
/// given date: `NaiveDate::and_time` with `NaiveTime::MIN`, then
/// `NaiveDateTime::and_local_timezone`, and of the single instant that this
/// names `DateTime::offset`. `None` where local midnight of that date does
/// not exist or occurs twice. Trusted: a `FixedOffset` is less than a day.
/// Which offset comes back depends on the machine's time zone. The dates
/// admitted are those of the years 0 to 9999, which `chrono` can place in
/// any time zone.
#[verifier::external_body]
fn local_midnight_offset(days: i32) -> (r: Option<i32>)
    requires
        FIRST_CIVIL_DAY <= days <= LAST_CIVIL_DAY,
    ensures
        r matches Some(offset) ==> valid_offset(offset as int),
{
    let midnight = NaiveDate::from_num_days_from_ce_opt(days).unwrap().and_time(NaiveTime::MIN);
    match midnight.and_local_timezone(Local).single() {
        Some(found) => Some(found.offset().local_minus_utc()),
        None => None,
    }
}

/// Writes out midnight of the given date at the given offset:
/// `NaiveDateTime::and_local_timezone` with the `FixedOffset` that
/// `FixedOffset::east_opt` makes, then `to_string`. Trusted: the text is
/// the named function of the day number and the offset.
#[verifier::external_body]
fn midnight_text_at(days: i32, offset: i32) -> (r: String)
    requires
        FIRST_CIVIL_DAY <= days <= LAST_CIVIL_DAY,
        valid_offset(offset as int),
    ensures
        r@ == midnight_text(days as int, offset as int),
{
    let midnight = NaiveDate::from_num_days_from_ce_opt(days).unwrap().and_time(NaiveTime::MIN);
    midnight.and_local_timezone(FixedOffset::east_opt(offset).unwrap()).unwrap().to_string()
}

/// The address of the GraphQL endpoint of a host.
pub open spec fn api_url(host: Seq<char>) -> Seq<char> {
    "https://"@ + host + "/api/graphql"@
}

/// The value of the authorization header for a token.
pub open spec fn bearer(token: Seq<char>) -> Seq<char> {
    "Bearer "@ + token
}

/// The cursor as it is written into the query: empty where there is none.
pub open spec fn cursor_text(before: Option<&str>) -> Seq<char> {
    match before {
        Some(cursor) => cursor@,
        None => Seq::empty(),
    }
}

/// The query template with its four placeholders filled in, one after the
/// other: user name, cursor, start and end of the time span.
pub open spec fn filled_template(
    template: Seq<char>,
    username: Seq<char>,
    cursor: Seq<char>,
    start: Seq<char>,
    end: Seq<char>,
) -> Seq<char> {
    replaced(
        replaced(
            replaced(replaced(template, "%USERNAME%"@, username), "%BEFORE%"@, cursor),
            "%START_DATE%"@,
            start,
        ),
        "%END_DATE%"@,
        end,
    )
}

/// One request for one page: where to post it, the authorization header,
/// and the text of the GraphQL query.
#[derive(Clone, Debug, PartialEq, Eq)]
pub struct PageRequest {
    pub url: String,
    pub authorization: String,
    pub query: String,
}

/// Fills the placeholders `%USERNAME%`, `%BEFORE%`, `%START_DATE%` and
/// `%END_DATE%` of a query template.
pub fn fill_template(
    template: &str,
    username: &str,
    before: Option<&str>,
    start: &str,
    end: &str,
) -> (r: String)
    ensures
        r@ == filled_template(template@, username@, cursor_text(before), start@, end@),
{
    let cursor: &str = match before {
        Some(c) => c,
        None => {
            proof {
                reveal_strlit("");
                assert(""@ =~= Seq::<char>::empty());
            }
            ""
        },
    };
    let named = replace_all(template, "%USERNAME%", username);
    let paged = replace_all(named.as_str(), "%BEFORE%", cursor);
    let started = replace_all(paged.as_str(), "%START_DATE%", start);
    replace_all(started.as_str(), "%END_DATE%", end)
}

/// The address of the GraphQL endpoint of `host`, a host name without
/// scheme.
pub fn endpoint(host: &str) -> (r: String)
    ensures
        r@ == api_url(host@),
{
    let mut url = "https://".to_owned();
    url.append(host);
    url.append("/api/graphql");
    url
}

/// The authorization header that carries `token`.
pub fn authorization(token: &str) -> (r: String)
    ensures
        r@ == bearer(token@),
{
    let mut header = "Bearer ".to_owned();
    header.append(token);
    header
}

/// A date of the years 0 to 9999.
pub open spec fn civil(date: Date) -> bool {
    FIRST_CIVIL_DAY <= date.spec_days() <= LAST_CIVIL_DAY
}

/// `request` is the request for one page of the time span from
/// `start_date` to `end_date`, with midnight of the two dates written at
/// the offsets `start_offset` and `end_offset`.
pub open spec fn is_request(
    request: PageRequest,
    template: Seq<char>,
    username: Seq<char>,
    host: Seq<char>,
    token: Seq<char>,
    cursor: Seq<char>,
    start_date: Date,
    end_date: Date,
    start_offset: int,
    end_offset: int,
) -> bool {
    &&& request.url@ == api_url(host)
    &&& request.authorization@ == bearer(token)
    &&& request.query@ == filled_template(
        template,
        username,
        cursor,
        midnight_text(start_date.spec_days(), start_offset),
        midnight_text(end_date.spec_days(), end_offset),
    )
}

/// Builds the request for one page of the timelogs of `username` between
/// `start_date` and `end_date`, both inclusive, for a time zone that is
/// `start_offset` seconds ahead of UTC at midnight of the first date and
/// `end_offset` seconds at midnight of the last. `None` where one of the
/// dates lies outside the years 0 to 9999 or one of the offsets is a day
/// or more.
pub fn request_at(
    template: &str,
    username: &str,
    host: &str,
    token: &str,
    before: Option<&str>,
    start_date: Date,
    end_date: Date,
    start_offset: i32,
    end_offset: i32,
) -> (r: Option<PageRequest>)
    ensures
        r.is_some() == (civil(start_date) && civil(end_date) && valid_offset(start_offset as int)
            && valid_offset(end_offset as int)),
        r matches Some(request) ==> is_request(
            request,
            template@,
            username@,
            host@,
            token@,
            cursor_text(before),
            start_date,
            end_date,
            start_offset as int,
            end_offset as int,
        ),
{
    let first = start_date.days();
    let last = end_date.days();
    if first < FIRST_CIVIL_DAY || first > LAST_CIVIL_DAY || last < FIRST_CIVIL_DAY || last
        > LAST_CIVIL_DAY {
        return None;
    }
    if start_offset <= -86_400 || start_offset >= 86_400 || end_offset <= -86_400 || end_offset
        >= 86_400 {
        return None;
    }
    let start = midnight_text_at(first, start_offset);
    let end = midnight_text_at(last, end_offset);
    let query = fill_template(template, username, before, start.as_str(), end.as_str());
    Some(PageRequest { url: endpoint(host), authorization: authorization(token), query })
}

/// Builds the request for one page of the timelogs of `username` between
/// `start_date` and `end_date`, both inclusive. The dates go into the query
/// as midnight in the local time zone: the service looks at the date and
/// the zone only. `None` where one of the dates lies outside the years 0 to
/// 9999, or local midnight of it does not exist or occurs twice. The
/// offsets are those that the machine's time zone has at the two
/// midnights.
pub fn page_request(
    template: &str,
    username: &str,
    host: &str,
    token: &str,
    before: Option<&str>,
    start_date: Date,
    end_date: Date,
) -> (r: Option<PageRequest>)
    ensures
        !civil(start_date) || !civil(end_date) ==> r.is_none(),
        r matches Some(request) ==> exists|start_offset: int, end_offset: int|
            valid_offset(start_offset) && valid_offset(end_offset) && #[trigger] is_request(
                request,
                template@,
                username@,
                host@,
                token@,
                cursor_text(before),
                start_date,
                end_date,
                start_offset,
                end_offset,
            ),
{
    let first = start_date.days();
    let last = end_date.days();
    if first < FIRST_CIVIL_DAY || first > LAST_CIVIL_DAY || last < FIRST_CIVIL_DAY || last
        > LAST_CIVIL_DAY {
        return None;
    }
    let start_offset = match local_midnight_offset(first) {
        Some(offset) => offset,
        None => {
            return None;
        },
    };
    let end_offset = match local_midnight_offset(last) {
        Some(offset) => offset,
        None => {
            return None;
        },
    };
    let r = request_at(
        template,
        username,
        host,
        token,
        before,
        start_date,
        end_date,
        start_offset,
        end_offset,
    );
    proof {
        assert(is_request(
            r.unwrap(),
            template@,
            username@,
            host@,
            token@,
            cursor_text(before),
            start_date,
            end_date,
            start_offset as int,
            end_offset as int,
        ));
    }
    r
}

/// Why a fetch failed.
#[derive(Clone, Debug, PartialEq, Eq)]
pub enum FetchError {
    /// The first date of the time span lies after its last date.
    InvalidRange,
    /// The request did not get through, or no answer came back; with the
    /// cause as the transport gave it.
    Transport(String),
    /// The server answered with a status other than success.
    Status(u16),
    /// The body of the answer is neither a payload nor a list of errors;
    /// with the cause as the decoder gave it.
    Undecodable(String),
    /// A response held both `data` and `errors`, or neither.
    MalformedResponse,
    /// A page announced a previous page without a cursor to request it by.
    MissingCursor,
    /// The service answered with errors of its own.
    Remote(GraphQLErrorsResponse),
}

/// What came of one request.
#[derive(Debug, PartialEq, Eq)]
pub enum Reply {
    /// The request failed in transport.
    Failed(String),
    /// The server answered with this status, and this is its body as far
    /// as it could be decoded.
    Answered { status: u16, body: Result<ResponseSerialized, String> },
}

/// Where a fetch stands.
#[derive(Clone, Debug, PartialEq, Eq)]
pub enum Fetch {
    /// Another page is to be requested, with `before` as its cursor (none
    /// for the first page); `collected` holds the records read so far.
    Pending { collected: Vec<ResponseNode>, before: Option<String> },
    /// Every page was read: the records of all of them, with the page
    /// information of the last.
    Complete(ResponseData),
}

/// What a fetch has come to, with the records as a sequence.
pub enum Outcome {
    Pending { collected: Seq<ResponseNode>, before: Option<String> },
    Complete { nodes: Seq<ResponseNode>, page_info: ResponsePageInfo },
    Failed(FetchError),
}

impl Fetch {
    pub open spec fn outcome(self) -> Outcome {
        match self {
            Fetch::Pending { collected, before } => Outcome::Pending {
                collected: collected@,
                before,
            },
            Fetch::Complete(data) => Outcome::Complete {
                nodes: data.timelogs.nodes@,
                page_info: data.timelogs.pageInfo,
            },
        }
    }
}

/// The outcome that a result stands for.
pub open spec fn outcome_of(r: Result<Fetch, FetchError>) -> Outcome {
    match r {
        Ok(fetch) => fetch.outcome(),
        Err(e) => Outcome::Failed(e),
    }
}

/// What follows when `page` arrives after `collected` was read: the
/// records of the page are put before those collected, and the page
/// information decides how the fetch goes on.
pub open spec fn page_outcome(collected: Seq<ResponseNode>, page: ResponseData) -> Outcome {
    let nodes = page.timelogs.nodes@ + collected;
    let info = page.timelogs.pageInfo;
    if !info.hasPreviousPage {
        Outcome::Complete { nodes, page_info: info }
    } else if info.startCursor.is_some() {
        Outcome::Pending { collected: nodes, before: info.startCursor }
    } else {
        Outcome::Failed(FetchError::MissingCursor)
    }
}

/// What follows when a typed response arrives after `collected` was read.
pub open spec fn response_outcome(collected: Seq<ResponseNode>, response: Response) -> Outcome {
    match response {
        Response::PayloadResponse(page) => page_outcome(collected, page),
        Response::ErrorResponse(errors) => Outcome::Failed(FetchError::Remote(errors)),
    }
}

/// What follows when a response arrives as it was on the wire.
pub open spec fn wire_outcome(collected: Seq<ResponseNode>, response: ResponseSerialized) -> Outcome {
    match (response.data, response.errors) {
        (Some(page), None) => page_outcome(collected, page),
        (None, Some(errors)) => Outcome::Failed(FetchError::Remote(errors)),
        _ => Outcome::Failed(FetchError::MalformedResponse),
    }
}

/// A status of the class "successful".
pub open spec fn is_success(status: u16) -> bool {
    200 <= status <= 299
}

/// What follows when a request made after `collected` was read comes to
/// `reply`. A failed transport, a status other than success and a body
/// that cannot be decoded each fail the fetch with an error of their own,
/// and the status is looked at before the body.
pub open spec fn reply_outcome(collected: Seq<ResponseNode>, reply: Reply) -> Outcome {
    match reply {
        Reply::Failed(cause) => Outcome::Failed(FetchError::Transport(cause)),
        Reply::Answered { status, body } => if !is_success(status) {
            Outcome::Failed(FetchError::Status(status))
        } else {
            match body {
                Ok(response) => wire_outcome(collected, response),
                Err(cause) => Outcome::Failed(FetchError::Undecodable(cause)),
            }
        },
    }
}

/// The outcome of a fetch to which the service answers with `responses`,
/// one after the other. Once the fetch is complete or has failed, no
/// further response is read.
pub open spec fn fetch_outcome(responses: Seq<Response>) -> Outcome
    decreases responses.len(),
{
    if responses.len() == 0 {
        Outcome::Pending { collected: Seq::empty(), before: None }
    } else {
        match fetch_outcome(responses.drop_last()) {
            Outcome::Pending { collected, before } => response_outcome(collected, responses.last()),
            ended => ended,
        }
    }
}

/// The records of the pages, those of the last page first.
pub open spec fn all_records(pages: Seq<ResponseData>) -> Seq<ResponseNode>
    decreases pages.len(),
{
    if pages.len() == 0 {
        Seq::empty()
    } else {
        pages.last().timelogs.nodes@ + all_records(pages.drop_last())
    }
}

/// The records of the pages as a multiset: each record as often as the
/// pages hold it.
pub open spec fn record_multiset(pages: Seq<ResponseData>) -> Multiset<ResponseNode>
    decreases pages.len(),
{
    if pages.len() == 0 {
        Multiset::empty()
    } else {
        record_multiset(pages.drop_last()).add(pages.last().timelogs.nodes@.to_multiset())
    }
}

/// The number of records on the pages.
pub open spec fn record_count(pages: Seq<ResponseData>) -> nat
    decreases pages.len(),
{
    if pages.len() == 0 {
        0
    } else {
        record_count(pages.drop_last()) + pages.last().timelogs.nodes@.len()
    }
}

/// The pages as successful responses.
pub open spec fn payloads(pages: Seq<ResponseData>) -> Seq<Response> {
    Seq::new(pages.len(), |i: int| Response::PayloadResponse(pages[i]))
}

/// Every page announces a previous page and gives the cursor for it.
pub open spec fn all_continue(pages: Seq<ResponseData>) -> bool {
    forall|i: int|
        0 <= i < pages.len() ==> (#[trigger] pages[i]).timelogs.pageInfo.hasPreviousPage
            && pages[i].timelogs.pageInfo.startCursor.is_some()
}

/// Starts a fetch of the time span from `after` to `before`, both
/// inclusive: the first page is to be requested without a cursor. A span
/// that ends before it starts is refused.
pub fn begin_fetch(after: Date, before: Date) -> (r: Result<Fetch, FetchError>)
    ensures
        outcome_of(r) == if before.spec_days() < after.spec_days() {
            Outcome::Failed(FetchError::InvalidRange)
        } else {
            Outcome::Pending { collected: Seq::empty(), before: None }
        },
{
    if before.days() < after.days() {
        Err(FetchError::InvalidRange)
    } else {
        Ok(Fetch::Pending { collected: Vec::new(), before: None })
    }
}

/// Takes in a page that arrived after `collected` was read.
pub fn accept_data(collected: Vec<ResponseNode>, page: ResponseData) -> (r: Result<
    Fetch,
    FetchError,
>)
    ensures
        outcome_of(r) == page_outcome(collected@, page),
{
    let ResponseData { timelogs } = page;
    let ResponseTimelogs { nodes, pageInfo } = timelogs;
    let mut nodes = nodes;
    let mut collected = collected;
    // The order of the pages is not that important: the views sort anyway.
    nodes.append(&mut collected);
    if !pageInfo.hasPreviousPage {
        Ok(Fetch::Complete(ResponseData { timelogs: ResponseTimelogs { nodes, pageInfo } }))
    } else {
        match pageInfo.startCursor {
            Some(cursor) => Ok(Fetch::Pending { collected: nodes, before: Some(cursor) }),
            None => Err(FetchError::MissingCursor),
        }
    }
}

/// Takes in a typed response that arrived after `collected` was read.
pub fn accept_page(collected: Vec<ResponseNode>, response: Response) -> (r: Result<
    Fetch,
    FetchError,
>)
    ensures
        outcome_of(r) == response_outcome(collected@, response),
{
    match response.to_result() {
        Ok(page) => accept_data(collected, page),
        Err(errors) => Err(FetchError::Remote(errors)),
    }
}

/// Takes in a response as it was on the wire: one that holds both `data`
/// and `errors`, or neither, fails the fetch.
pub fn accept_response(collected: Vec<ResponseNode>, response: ResponseSerialized) -> (r: Result<
    Fetch,
    FetchError,
>)
    ensures
        outcome_of(r) == wire_outcome(collected@, response),
{
    if response.is_well_formed() {
        accept_page(collected, response.to_typed())
    } else {
        Err(FetchError::MalformedResponse)
    }
}

/// Takes in what came of the request that was made after `collected` was
/// read. Nothing is tried again: whatever fails, fails the fetch.
pub fn accept_reply(collected: Vec<ResponseNode>, reply: Reply) -> (r: Result<Fetch, FetchError>)
    ensures
        outcome_of(r) == reply_outcome(collected@, reply),
{
    match reply {
        Reply::Failed(cause) => Err(FetchError::Transport(cause)),
        Reply::Answered { status, body } => {
            if status < 200 || status > 299 {
                Err(FetchError::Status(status))
            } else {
                match body {
                    Ok(response) => accept_response(collected, response),
                    Err(cause) => Err(FetchError::Undecodable(cause)),
                }
            }
        },
    }
}

/// While every page announces a previous one with its cursor, the fetch
/// stays pending, holds the records of all pages read, and asks for the
/// next page by the cursor of the last.
pub proof fn lemma_pending_while_continuing(pages: Seq<ResponseData>)
    requires
        all_continue(pages),
    ensures
        fetch_outcome(payloads(pages)) == (Outcome::Pending {
            collected: all_records(pages),
            before: if pages.len() == 0 {
                None
            } else {
                pages.last().timelogs.pageInfo.startCursor
            },
        }),
    decreases pages.len(),
{
    if pages.len() > 0 {
        let init = pages.drop_last();
        assert(all_continue(init)) by {
            assert forall|i: int| 0 <= i < init.len() implies (#[trigger] init[i]).timelogs.pageInfo.hasPreviousPage
                && init[i].timelogs.pageInfo.startCursor.is_some() by {
                assert(init[i] == pages[i]);
            }
        }
        lemma_pending_while_continuing(init);
        assert(payloads(pages).drop_last() =~= payloads(init));
        assert(payloads(pages).last() == Response::PayloadResponse(pages.last()));
    }
}

/// The records collected from the pages are those of the pages, each as
/// often as the pages hold it: none is dropped and none is doubled.
pub proof fn lemma_all_records_multiset(pages: Seq<ResponseData>)
    ensures
        all_records(pages).to_multiset() == record_multiset(pages),
        all_records(pages).len() == record_count(pages),
    decreases pages.len(),
{
    if pages.len() == 0 {
        assert(all_records(pages).to_multiset() =~= Multiset::empty()) by {
            all_records(pages).to_multiset_ensures();
            assert(all_records(pages).to_multiset().len() == 0);
        }
    } else {
        let last = pages.last().timelogs.nodes@;
        let rest = all_records(pages.drop_last());
        lemma_all_records_multiset(pages.drop_last());
        lemma_multiset_commutative(last, rest);
        assert(last.to_multiset().add(rest.to_multiset()) =~= rest.to_multiset().add(
            last.to_multiset(),
        ));
    }
}

/// Pagination is complete: where every page but the last announces a
/// previous page with its cursor and the last announces none, the fetch
/// ends complete after the last page, with exactly the records of all the
/// pages and the page information of the last.
pub proof fn lemma_pagination_complete(pages: Seq<ResponseData>)
    requires
        pages.len() > 0,
        all_continue(pages.drop_last()),
        !pages.last().timelogs.pageInfo.hasPreviousPage,
    ensures
        fetch_outcome(payloads(pages)) == (Outcome::Complete {
            nodes: all_records(pages),
            page_info: pages.last().timelogs.pageInfo,
        }),
        all_records(pages).to_multiset() == record_multiset(pages),
        all_records(pages).len() == record_count(pages),
{
    lemma_pending_while_continuing(pages.drop_last());
    assert(payloads(pages).drop_last() =~= payloads(pages.drop_last()));
    assert(payloads(pages).last() == Response::PayloadResponse(pages.last()));
    lemma_all_records_multiset(pages);
}

/// A page that announces a previous page without a cursor fails the fetch,
/// whatever responses might follow it.
pub proof fn lemma_missing_cursor_fails(
    pages: Seq<ResponseData>,
    broken: ResponseData,
    later: Seq<Response>,
)
    requires
        all_continue(pages),
        broken.timelogs.pageInfo.hasPreviousPage,
        broken.timelogs.pageInfo.startCursor.is_none(),
    ensures
        fetch_outcome(payloads(pages).push(Response::PayloadResponse(broken)) + later)
            == Outcome::Failed(FetchError::MissingCursor),
    decreases later.len(),
{
    let upto = payloads(pages).push(Response::PayloadResponse(broken));
    if later.len() == 0 {
        lemma_pending_while_continuing(pages);
        assert(upto + later =~= upto);
        assert(upto.drop_last() =~= payloads(pages));
    } else {
        lemma_missing_cursor_fails(pages, broken, later.drop_last());
        assert((upto + later).drop_last() =~= upto + later.drop_last());
    }
}

} // verus!
