use gitlab_timelogs::gitlab_api::types::{
    Epic, GraphQLErrorResponse, GraphQLErrorsResponse, Group, Issue, Project, Response,
    ResponseData, ResponseNode, ResponsePageInfo, ResponseSerialized, ResponseTimelogs,
};

fn record(seconds: i64, epic: Option<&str>, group: Option<&str>) -> ResponseNode {
    ResponseNode {
        spentAt: "2024-06-03T12:00:00Z".to_string(),
        timeSpent: seconds,
        summary: Some("did things".to_string()),
        issue: Issue {
            title: "Issue".to_string(),
            webUrl: "https://example.com/1".to_string(),
            epic: epic.map(|title| Epic { title: title.to_string() }),
        },
        project: Project { group: group.map(|name| Group { fullName: name.to_string() }) },
    }
}

fn page(nodes: Vec<ResponseNode>) -> ResponseData {
    ResponseData {
        timelogs: ResponseTimelogs {
            nodes,
            pageInfo: ResponsePageInfo { hasPreviousPage: false, startCursor: None },
        },
    }
}

#[test]
fn time_spent_splits_sign_and_magnitude() {
    assert_eq!(record(1800, None, None).timeSpent(), (true, 1800));
    assert_eq!(record(-3600, None, None).timeSpent(), (false, 3600));
    assert_eq!(record(1, None, None).timeSpent(), (true, 1));
    assert_eq!(record(-1, None, None).timeSpent(), (false, 1));
}

#[test]
fn time_spent_of_zero_is_not_positive() {
    assert_eq!(record(0, None, None).timeSpent(), (false, 0));
}

#[test]
fn time_spent_at_the_limits() {
    assert_eq!(record(i64::MAX, None, None).timeSpent(), (true, 9223372036854775807));
    assert_eq!(record(i64::MIN, None, None).timeSpent(), (false, 9223372036854775808));
}

#[test]
fn epic_and_group_names() {
    let both = record(60, Some("Roadmap"), Some("team/core"));
    assert_eq!(both.epic_name(), Some("Roadmap"));
    assert_eq!(both.group_name(), Some("team/core"));
    assert!(both.has_epic("Roadmap"));
    assert!(!both.has_epic("roadmap"));
    assert!(both.has_group("team/core"));
    assert!(!both.has_group("team"));
    let neither = record(60, None, None);
    assert_eq!(neither.epic_name(), None);
    assert_eq!(neither.group_name(), None);
    assert!(!neither.has_epic(""));
    assert!(!neither.has_group(""));
}

#[test]
fn to_result_maps_the_two_variants() {
    let data = page(vec![record(60, None, None)]);
    assert_eq!(Response::PayloadResponse(data.clone()).to_result(), Ok(data));
    let errors = GraphQLErrorsResponse(vec![GraphQLErrorResponse {
        message: "boom".to_string(),
        locations: vec![],
    }]);
    assert_eq!(Response::ErrorResponse(errors.clone()).to_result(), Err(errors));
}

#[test]
fn to_typed_tells_payload_from_errors() {
    let data = page(vec![record(60, None, None)]);
    let payload = ResponseSerialized { data: Some(data.clone()), errors: None };
    assert!(payload.is_well_formed());
    assert_eq!(payload.to_typed(), Response::PayloadResponse(data));
    let errors = GraphQLErrorsResponse(vec![]);
    let failed = ResponseSerialized { data: None, errors: Some(errors.clone()) };
    assert!(failed.is_well_formed());
    assert_eq!(failed.to_typed(), Response::ErrorResponse(errors));
}

#[test]
fn a_response_with_both_or_neither_member_is_not_well_formed() {
    let neither = ResponseSerialized { data: None, errors: None };
    assert!(!neither.is_well_formed());
    let both = ResponseSerialized {
        data: Some(page(vec![])),
        errors: Some(GraphQLErrorsResponse(vec![])),
    };
    assert!(!both.is_well_formed());
}
