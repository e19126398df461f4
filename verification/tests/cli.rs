use gitlab_timelogs::cli::{has_argument, merge_args, CfgFile, CliArgs};
use gitlab_timelogs::dates::{current_date, date_at_offset, Date};

fn strings(items: &[&str]) -> Vec<String> {
    items.iter().map(|s| s.to_string()).collect()
}

fn pair(name: &str, value: &str) -> (String, String) {
    (name.to_string(), value.to_string())
}

#[test]
fn options_of_a_full_file() {
    let file = CfgFile {
        gitlab_host: Some("gitlab.example.com".to_string()),
        gitlab_username: Some("jane".to_string()),
        gitlab_token: Some("tok".to_string()),
    };
    assert_eq!(
        file.to_cli_args(),
        vec![pair("--host", "gitlab.example.com"), pair("--username", "jane"), pair("--token", "tok")]
    );
}

#[test]
fn options_of_a_partial_file() {
    let empty = CfgFile { gitlab_host: None, gitlab_username: None, gitlab_token: None };
    assert!(empty.to_cli_args().is_empty());
    let some = CfgFile { gitlab_host: None, gitlab_username: Some("jane".to_string()), gitlab_token: None };
    assert_eq!(some.to_cli_args(), vec![pair("--username", "jane")]);
    let two = CfgFile {
        gitlab_host: Some("h".to_string()),
        gitlab_username: None,
        gitlab_token: Some("t".to_string()),
    };
    assert_eq!(two.to_cli_args(), vec![pair("--host", "h"), pair("--token", "t")]);
}

#[test]
fn the_command_line_wins_over_the_file() {
    let config = vec![pair("--host", "file.example.com"), pair("--username", "jane"), pair("--token", "tok")];
    let merged = merge_args(strings(&["prog", "--host", "cli.example.com"]), &config);
    assert_eq!(
        merged,
        strings(&["prog", "--host", "cli.example.com", "--username", "jane", "--token", "tok"])
    );
    assert_eq!(merge_args(strings(&["prog"]), &vec![]), strings(&["prog"]));
    assert_eq!(
        merge_args(vec![], &config),
        strings(&["--host", "file.example.com", "--username", "jane", "--token", "tok"])
    );
}

#[test]
fn an_option_already_added_is_not_added_again() {
    let config = vec![pair("--host", "--token"), pair("--token", "tok"), pair("--host", "other")];
    assert_eq!(merge_args(strings(&["prog"]), &config), strings(&["prog", "--host", "--token"]));
}

#[test]
fn arguments_are_found_by_their_whole_text() {
    let args = strings(&["prog", "--host=x", "--username"]);
    assert!(has_argument(&args, &"--username".to_string()));
    assert!(!has_argument(&args, &"--host".to_string()));
    assert!(!has_argument(&vec![], &"".to_string()));
}

fn settings(before: Option<Date>) -> CliArgs {
    CliArgs {
        gitlab_host: "gitlab.example.com".to_string(),
        gitlab_username: "jane".to_string(),
        gitlab_token: "tok".to_string(),
        gitlab_before: before,
        gitlab_after: Date::from_ymd(1970, 1, 1).unwrap(),
        extended_summary: true,
    }
}

#[test]
fn settings_are_handed_out() {
    let day = Date::from_ymd(2024, 6, 30).unwrap();
    let args = settings(Some(day));
    assert_eq!(args.host(), "gitlab.example.com");
    assert_eq!(args.username(), "jane");
    assert_eq!(args.token(), "tok");
    assert_eq!(args.before(), day);
    assert_eq!(args.after(), Date::from_ymd(1970, 1, 1).unwrap());
    assert!(args.print_extended_summary());
}

#[test]
fn the_time_span_ends_today_where_no_end_is_given() {
    let first = current_date();
    let found = settings(None).before();
    let second = current_date();
    assert!(first <= found && found <= second);
    assert!(found > Date::from_ymd(2024, 1, 1).unwrap());
    assert!(found.days() >= 719_162);
    let utc_now = std::time::SystemTime::now()
        .duration_since(std::time::UNIX_EPOCH)
        .unwrap()
        .as_secs() as i64;
    let utc_today = date_at_offset(utc_now, 0).unwrap();
    assert!((found.days() - utc_today.days()).abs() <= 1);
}
