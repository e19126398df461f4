use gitlab_timelogs::dates::Date;
use gitlab_timelogs::fetch::{
    accept_data, accept_page, accept_reply, accept_response, authorization, begin_fetch, endpoint,
    fill_template, page_request, request_at, Fetch, FetchError, Reply,
};
use gitlab_timelogs::gitlab_api::types::{
    GraphQLErrorLocation, GraphQLErrorResponse, GraphQLErrorsResponse, Issue, Project, Response,
    ResponseData, ResponseNode, ResponsePageInfo, ResponseSerialized, ResponseTimelogs,
};

fn record(id: i64) -> ResponseNode {
    ResponseNode {
        spentAt: "2024-06-03T12:00:00Z".to_string(),
        timeSpent: id,
        summary: None,
        issue: Issue { title: "Issue".to_string(), webUrl: "https://example.com/1".to_string(), epic: None },
        project: Project { group: None },
    }
}

fn page(ids: &[i64], cursor: Option<&str>, has_previous: bool) -> ResponseData {
    ResponseData {
        timelogs: ResponseTimelogs {
            nodes: ids.iter().map(|id| record(*id)).collect(),
            pageInfo: ResponsePageInfo {
                hasPreviousPage: has_previous,
                startCursor: cursor.map(|c| c.to_string()),
            },
        },
    }
}

fn span() -> (Date, Date) {
    (Date::from_ymd(2024, 6, 1).unwrap(), Date::from_ymd(2024, 6, 30).unwrap())
}

/// Runs a fetch against `pages`, answering the request for cursor `c<i>` with page `i`.
fn run(pages: &[ResponseData]) -> Result<ResponseData, FetchError> {
    let (after, before) = span();
    let mut state = begin_fetch(after, before)?;
    let mut requests: usize = 0;
    loop {
        match state {
            Fetch::Complete(data) => {
                assert_eq!(requests, pages.len());
                return Ok(data);
            }
            Fetch::Pending { collected, before } => {
                let index: usize = match before {
                    None => 0,
                    Some(cursor) => cursor[1..].parse().unwrap(),
                };
                assert_eq!(index, requests);
                requests += 1;
                state = accept_page(collected, Response::PayloadResponse(pages[index].clone()))?;
            }
        }
    }
}

fn synthetic(n: usize, per_page: i64) -> Vec<ResponseData> {
    (0..n)
        .map(|i| {
            let first = i as i64 * per_page;
            let ids: Vec<i64> = (first..first + per_page).collect();
            let cursor = format!("c{}", i + 1);
            if i + 1 < n {
                page(&ids, Some(&cursor), true)
            } else {
                page(&ids, None, false)
            }
        })
        .collect()
}

fn ids_of(data: &ResponseData) -> Vec<i64> {
    let mut ids: Vec<i64> = data.timelogs.nodes.iter().map(|n| n.timeSpent).collect();
    ids.sort();
    ids
}

#[test]
fn pagination_of_one_page() {
    let data = run(&synthetic(1, 3)).unwrap();
    assert_eq!(ids_of(&data), vec![0, 1, 2]);
    assert!(!data.timelogs.pageInfo.hasPreviousPage);
}

#[test]
fn pagination_of_three_pages() {
    let data = run(&synthetic(3, 2)).unwrap();
    assert_eq!(ids_of(&data), vec![0, 1, 2, 3, 4, 5]);
    let order: Vec<i64> = data.timelogs.nodes.iter().map(|n| n.timeSpent).collect();
    assert_eq!(order, vec![4, 5, 2, 3, 0, 1]);
}

#[test]
fn pagination_of_fifty_pages() {
    let data = run(&synthetic(50, 7)).unwrap();
    assert_eq!(ids_of(&data), (0..350).collect::<Vec<i64>>());
}

#[test]
fn pagination_of_empty_pages() {
    let data = run(&synthetic(4, 0)).unwrap();
    assert!(data.timelogs.nodes.is_empty());
}

#[test]
fn a_page_without_cursor_that_announces_another_is_fatal() {
    let broken = page(&[1, 2], None, true);
    assert_eq!(accept_data(vec![], broken.clone()), Err(FetchError::MissingCursor));
    assert_eq!(
        accept_page(vec![record(0)], Response::PayloadResponse(broken.clone())),
        Err(FetchError::MissingCursor)
    );
    let pages = vec![page(&[0], Some("c1"), true), broken, page(&[3], None, false)];
    assert_eq!(run(&pages), Err(FetchError::MissingCursor));
}

#[test]
fn a_cursor_on_the_last_page_is_not_followed() {
    let last = page(&[1], Some("c9"), false);
    let done = accept_data(vec![record(0)], last).unwrap();
    match done {
        Fetch::Complete(data) => {
            assert_eq!(ids_of(&data), vec![0, 1]);
            assert_eq!(data.timelogs.pageInfo.startCursor, Some("c9".to_string()));
        }
        Fetch::Pending { .. } => panic!("the fetch should be complete"),
    }
}

#[test]
fn a_page_with_cursor_keeps_the_fetch_pending() {
    let next = accept_data(vec![record(0)], page(&[1, 2], Some("abc"), true)).unwrap();
    assert_eq!(
        next,
        Fetch::Pending { collected: vec![record(1), record(2), record(0)], before: Some("abc".to_string()) }
    );
}

#[test]
fn errors_of_the_service_fail_the_fetch() {
    let errors = GraphQLErrorsResponse(vec![GraphQLErrorResponse {
        message: "unauthorized".to_string(),
        locations: vec![GraphQLErrorLocation { line: 1, column: 2 }],
    }]);
    assert_eq!(
        accept_page(vec![], Response::ErrorResponse(errors.clone())),
        Err(FetchError::Remote(errors.clone()))
    );
    assert_eq!(
        accept_response(vec![], ResponseSerialized { data: None, errors: Some(errors.clone()) }),
        Err(FetchError::Remote(errors))
    );
}

#[test]
fn malformed_responses_fail_the_fetch() {
    assert_eq!(
        accept_response(vec![], ResponseSerialized { data: None, errors: None }),
        Err(FetchError::MalformedResponse)
    );
    assert_eq!(
        accept_response(
            vec![],
            ResponseSerialized {
                data: Some(page(&[1], None, false)),
                errors: Some(GraphQLErrorsResponse(vec![])),
            }
        ),
        Err(FetchError::MalformedResponse)
    );
    let fine = accept_response(
        vec![record(5)],
        ResponseSerialized { data: Some(page(&[1], None, false)), errors: None },
    );
    assert_eq!(fine, Ok(Fetch::Complete(page(&[1, 5], None, false))));
}

#[test]
fn a_span_that_ends_before_it_starts_is_refused() {
    let (after, before) = span();
    assert_eq!(begin_fetch(before, after), Err(FetchError::InvalidRange));
    assert_eq!(begin_fetch(after, before), Ok(Fetch::Pending { collected: vec![], before: None }));
    assert_eq!(begin_fetch(after, after), Ok(Fetch::Pending { collected: vec![], before: None }));
}

#[test]
fn template_placeholders_are_filled() {
    let template = "user %USERNAME% before \"%BEFORE%\" from %START_DATE% to %END_DATE% (%USERNAME%)";
    assert_eq!(
        fill_template(template, "jane", Some("xyz"), "2024-06-01", "2024-06-30"),
        "user jane before \"xyz\" from 2024-06-01 to 2024-06-30 (jane)"
    );
    assert_eq!(
        fill_template(template, "jane", None, "a", "b"),
        "user jane before \"\" from a to b (jane)"
    );
    assert_eq!(fill_template("nothing to fill", "jane", None, "a", "b"), "nothing to fill");
}

#[test]
fn placeholders_are_filled_one_after_the_other() {
    assert_eq!(fill_template("%USERNAME%", "%BEFORE%", Some("c"), "s", "e"), "c");
    assert_eq!(fill_template("%BEFORE%", "u", Some("%END_DATE%"), "s", "e"), "e");
    assert_eq!(fill_template("%END_DATE%", "u", None, "s", "%USERNAME%"), "%USERNAME%");
}

#[test]
fn endpoint_and_authorization() {
    assert_eq!(endpoint("gitlab.example.com"), "https://gitlab.example.com/api/graphql");
    assert_eq!(endpoint(""), "https:///api/graphql");
    assert_eq!(authorization("SECRET-REDACTED"), "Bearer SECRET-REDACTED");
    assert_eq!(authorization(""), "Bearer ");
}

#[test]
fn request_for_a_page() {
    let (after, before) = span();
    let request = page_request(
        "{ timelogs(username: \"%USERNAME%\", before: \"%BEFORE%\", startDate: \"%START_DATE%\", endDate: \"%END_DATE%\") }",
        "jane",
        "gitlab.example.com",
        "tok",
        Some("cur"),
        after,
        before,
    )
    .unwrap();
    assert_eq!(request.url, "https://gitlab.example.com/api/graphql");
    assert_eq!(request.authorization, "Bearer tok");
    assert!(request.query.starts_with(
        "{ timelogs(username: \"jane\", before: \"cur\", startDate: \"2024-06-01 00:00:00 "
    ));
    assert!(request.query.contains("endDate: \"2024-06-30 00:00:00 "));
    assert!(!request.query.contains('%'));
}

#[test]
fn no_request_for_dates_outside_the_civil_years() {
    let (after, before) = span();
    let early = Date::from_ymd(-1, 12, 31).unwrap();
    let late = Date::from_ymd(10_000, 1, 1).unwrap();
    assert_eq!(page_request("%START_DATE%", "u", "h", "t", None, early, before), None);
    assert_eq!(page_request("%START_DATE%", "u", "h", "t", None, after, late), None);
    let first = Date::from_ymd(0, 1, 1).unwrap();
    let last = Date::from_ymd(9999, 12, 31).unwrap();
    assert_eq!(first.days(), -365);
    assert_eq!(last.days(), 3_652_059);
    let request = page_request("%START_DATE%|%END_DATE%", "u", "h", "t", None, first, last).unwrap();
    assert!(request.query.starts_with("0000-01-01 00:00:00"));
    assert!(request.query.contains("|9999-12-31 00:00:00"));
}

#[test]
fn a_failed_transport_fails_the_fetch() {
    assert_eq!(
        accept_reply(vec![record(1)], Reply::Failed("connection refused".to_string())),
        Err(FetchError::Transport("connection refused".to_string()))
    );
}

#[test]
fn a_status_other_than_success_fails_the_fetch() {
    let body = ResponseSerialized { data: Some(page(&[1], None, false)), errors: None };
    for status in [0u16, 100, 199, 300, 301, 401, 404, 500, u16::MAX] {
        assert_eq!(
            accept_reply(vec![], Reply::Answered { status, body: Ok(body.clone()) }),
            Err(FetchError::Status(status))
        );
    }
    assert_eq!(
        accept_reply(vec![], Reply::Answered { status: 500, body: Err("no json".to_string()) }),
        Err(FetchError::Status(500))
    );
    for status in [200u16, 201, 299] {
        assert_eq!(
            accept_reply(vec![], Reply::Answered { status, body: Ok(body.clone()) }),
            Ok(Fetch::Complete(page(&[1], None, false)))
        );
    }
}

#[test]
fn a_body_that_cannot_be_decoded_fails_the_fetch() {
    assert_eq!(
        accept_reply(vec![], Reply::Answered { status: 200, body: Err("expected value".to_string()) }),
        Err(FetchError::Undecodable("expected value".to_string()))
    );
    assert_eq!(
        accept_reply(
            vec![],
            Reply::Answered { status: 200, body: Ok(ResponseSerialized { data: None, errors: None }) }
        ),
        Err(FetchError::MalformedResponse)
    );
}

#[test]
fn request_at_given_offsets() {
    let (after, before) = span();
    let request = request_at(
        "u=%USERNAME% b=%BEFORE% s=%START_DATE% e=%END_DATE%",
        "jane",
        "gitlab.example.com",
        "tok",
        Some("cur"),
        after,
        before,
        2 * 3600,
        -(5 * 3600 + 1800),
    )
    .unwrap();
    assert_eq!(request.url, "https://gitlab.example.com/api/graphql");
    assert_eq!(request.authorization, "Bearer tok");
    assert_eq!(
        request.query,
        "u=jane b=cur s=2024-06-01 00:00:00 +02:00 e=2024-06-30 00:00:00 -05:30"
    );
    let in_utc = request_at("%START_DATE%|%END_DATE%", "u", "h", "t", None, after, after, 0, 0).unwrap();
    assert_eq!(in_utc.query, "2024-06-01 00:00:00 +00:00|2024-06-01 00:00:00 +00:00");
}

#[test]
fn no_request_at_offsets_of_a_day_or_for_dates_outside_the_civil_years() {
    let (after, before) = span();
    assert_eq!(request_at("", "u", "h", "t", None, after, before, 86_400, 0), None);
    assert_eq!(request_at("", "u", "h", "t", None, after, before, 0, -86_400), None);
    assert!(request_at("", "u", "h", "t", None, after, before, 86_399, -86_399).is_some());
    let early = Date::from_ymd(-1, 12, 31).unwrap();
    let late = Date::from_ymd(10_000, 1, 1).unwrap();
    assert_eq!(request_at("", "u", "h", "t", None, early, before, 0, 0), None);
    assert_eq!(request_at("", "u", "h", "t", None, after, late, 0, 0), None);
    let first = Date::from_ymd(0, 1, 1).unwrap();
    let last = Date::from_ymd(9999, 12, 31).unwrap();
    let widest = request_at("%START_DATE%|%END_DATE%", "u", "h", "t", None, first, last, 86_399, -86_399);
    assert_eq!(
        widest.unwrap().query,
        "0000-01-01 00:00:00 +23:59:59|9999-12-31 00:00:00 -23:59:59"
    );
}

#[test]
fn the_request_in_the_local_zone_is_the_request_at_its_offsets() {
    let (after, before) = span();
    let template = "s=%START_DATE% e=%END_DATE% u=%USERNAME% b=%BEFORE%";
    let local = page_request(template, "jane", "h", "t", Some("c"), after, before).unwrap();
    let mut start_offset: Option<i32> = None;
    let mut end_offset: Option<i32> = None;
    let mut offset: i32 = -86_340;
    while offset < 86_400 {
        let at = request_at("%START_DATE%|%END_DATE%", "", "h", "t", None, after, before, offset, offset)
            .unwrap();
        let (start, end) = at.query.split_once('|').unwrap();
        if local.query.starts_with(&format!("s={start} e=")) {
            start_offset = Some(offset);
        }
        if local.query.contains(&format!(" e={end} u=")) {
            end_offset = Some(offset);
        }
        offset += 60;
    }
    let same = request_at(
        template,
        "jane",
        "h",
        "t",
        Some("c"),
        after,
        before,
        start_offset.unwrap(),
        end_offset.unwrap(),
    );
    assert_eq!(same, Some(local));
}
