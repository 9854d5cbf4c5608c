use jira_release::jira::{api_uri, check_response, versions_path, ResponseError};

#[test]
fn versions_uri() {
    let path = versions_path("EX");
    assert_eq!(path, "/project/EX/versions");
    assert_eq!(
        api_uri("https://jira.example.com", &path),
        "https://jira.example.com/rest/api/2/project/EX/versions"
    );
}

#[test]
fn unauthorized_comes_first() {
    assert!(matches!(check_response(401, Some(1)), Err(ResponseError::Authentication)));
    assert!(matches!(check_response::<u8>(401, None), Err(ResponseError::Authentication)));
}

#[test]
fn undecodable_body() {
    assert!(matches!(check_response::<u8>(200, None), Err(ResponseError::JsonParse)));
    assert!(matches!(check_response::<u8>(500, None), Err(ResponseError::JsonParse)));
}

#[test]
fn success_and_bad_status() {
    assert!(matches!(check_response(204, Some(7)), Ok(7)));
    match check_response(404, Some(7)) {
        Err(ResponseError::StatusCode(messages)) => assert!(messages.is_empty()),
        _ => panic!("expected a status error"),
    }
}
