use jira_release::parameters::{Params, ParamsErr};

fn keys(items: &[&str]) -> Vec<String> {
    items.iter().map(|s| s.to_string()).collect()
}

#[test]
fn shared_project_is_found() {
    let issues = keys(&["EX-1", "EX-22", "EX-3"]);
    match Params::project(&issues) {
        Ok(Some(p)) => assert_eq!(p, "EX"),
        _ => panic!("expected the shared project"),
    }
}

#[test]
fn no_issues_no_project() {
    assert!(matches!(Params::project(&Vec::new()), Ok(None)));
}

#[test]
fn issue_without_dash_is_invalid() {
    let issues = keys(&["EX-1", "EX2", "OTHER-3"]);
    match Params::project(&issues) {
        Err(ParamsErr::InvalidIssueErr(issue)) => assert_eq!(issue, "EX2"),
        _ => panic!("expected an invalid issue"),
    }
}

#[test]
fn other_project_is_a_mismatch() {
    let issues = keys(&["EX-1", "EX-2", "OTHER-3", "BAD"]);
    match Params::project(&issues) {
        Err(ParamsErr::ProjectMismatchErr(project)) => assert_eq!(project, "EX"),
        _ => panic!("expected a mismatch"),
    }
}

#[test]
fn project_is_text_before_first_dash() {
    let issues = keys(&["A-B-1", "A-2"]);
    match Params::project(&issues) {
        Ok(Some(p)) => assert_eq!(p, "A"),
        _ => panic!("expected project A"),
    }
}

#[test]
fn build_reads_one_issue_per_line() {
    let params = match Params::build(
        "EX-1\r\nEX-2\n",
        "fred".to_string(),
        "pw".to_string(),
        "https://jira.example.com".to_string(),
        "v1.0".to_string(),
    ) {
        Ok(p) => p,
        Err(e) => panic!("{}", e.message()),
    };
    assert_eq!(params.issues, ["EX-1", "EX-2"]);
    assert_eq!(params.project.as_deref(), Some("EX"));
    assert_eq!(params.username, "fred");
    assert_eq!(params.url, "https://jira.example.com");
    assert_eq!(params.version_name, "v1.0");
}

#[test]
fn build_fails_on_mixed_projects() {
    let r = Params::build(
        "EX-1\nZZ-2",
        String::new(),
        String::new(),
        String::new(),
        String::new(),
    );
    assert!(matches!(r, Err(ParamsErr::ProjectMismatchErr(_))));
}

#[test]
fn error_messages() {
    assert_eq!(ParamsErr::StdinErr.message(), "Failed to read from stdin");
    assert_eq!(
        ParamsErr::InvalidIssueErr("EX2".to_string()).message(),
        "Invalid Jira issue \"EX2\""
    );
    assert_eq!(
        ParamsErr::ProjectMismatchErr("EX".to_string()).message(),
        "Project \"EX\" is not consistent with other issues."
    );
}

#[test]
fn command_line_options() {
    let app = Params::get_app();
    assert_eq!(app.name, "Jira Release Tool");
    assert_eq!(app.version, "0.3.0");
    assert_eq!(app.args.len(), 4);
    let names: Vec<&str> = app.args.iter().map(|a| a.name).collect();
    assert_eq!(names, ["Jira URL", "Version name", "Username", "Password"]);
    assert_eq!(app.args[0].short, "U");
    assert_eq!(app.args[1].long, "version-name");
    assert_eq!(app.args[2].env, Some("JIRA_USERNAME"));
    assert_eq!(app.args[3].env, Some("JIRA_PASSWORD"));
    assert!(app.args.iter().all(|a| a.required && a.takes_value));
}
