//! What the Jira REST client decides: where requests go, and what a response means.
use vstd::prelude::*;

verus! {

/// A release version of a Jira project.
#[derive(Debug)]
pub struct Version {
    pub archived: bool,
    pub id: String,
    pub name: String,
    pub project_id: u32,
    pub released: bool,
}

/// Why a response from Jira was not accepted.
#[derive(Debug)]
pub enum ResponseError {
    /// The server answered with a status other than success.
    StatusCode(Vec<String>),
    /// The body was not the JSON that was expected.
    JsonParse,
    /// The server refused the credentials.
    Authentication,
}

/// The HTTP status for refused credentials.
pub const UNAUTHORIZED: u16 = 401;

/// The URI of the REST resource at `path` under the Jira root `url`.
pub fn api_uri(url: &str, path: &str) -> (r: String)
    ensures
        r@ == url@ + "/rest/api/2"@ + path@,
{
    let mut s = String::from_str(url);
    s.append("/rest/api/2");
    s.append(path);
    s
}

/// The path of the version list of `project`.
pub fn versions_path(project: &str) -> (r: String)
    ensures
        r@ == "/project/"@ + project@ + "/versions"@,
{
    let mut s = String::from_str("/project/");
    s.append(project);
    s.append("/versions");
    s
}

/// The verdict on a response with HTTP status `status` whose body decoded to
/// `parsed` (`None` when it did not decode): refused credentials first, then an
/// undecodable body, then any status outside 200..=299.
pub fn check_response<A>(status: u16, parsed: Option<A>) -> (r: Result<A, ResponseError>)
    ensures
        status == UNAUTHORIZED ==> r matches Err(ResponseError::Authentication),
        status != UNAUTHORIZED && parsed is None ==> r matches Err(ResponseError::JsonParse),
        status != UNAUTHORIZED && 200 <= status <= 299 && parsed is Some ==> r == Ok::<
            A,
            ResponseError,
        >(parsed->0),
        status != UNAUTHORIZED && !(200 <= status <= 299) && parsed is Some ==> (r matches Err(
            ResponseError::StatusCode(messages),
        ) && messages@.len() == 0),
{
    if status == UNAUTHORIZED {
        return Err(ResponseError::Authentication);
    }
    match parsed {
        Some(value) => {
            if 200 <= status && status <= 299 {
                Ok(value)
            } else {
                Err(ResponseError::StatusCode(Vec::new()))
            }
        },
        None => Err(ResponseError::JsonParse),
    }
}

} // verus!
