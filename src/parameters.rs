//! The program's parameters: the command-line options it declares, and the issue
//! list read from standard input with the project those issues share.
use vstd::prelude::*;

use crate::text::{chars_of, lines, lines_of, string_of, views};

verus! {

/// Why the parameters could not be assembled.
#[derive(Debug)]
pub enum ParamsErr {
    StdinErr,
    InvalidIssueErr(String),
    ProjectMismatchErr(String),
}

/// The parameters of one run.
#[derive(Debug)]
pub struct Params {
    pub issues: Vec<String>,
    pub username: String,
    pub password: String,
    pub url: String,
    pub version_name: String,
    pub project: Option<String>,
}

/// One command-line option: its name, short and long flags, help text, the
/// environment variable it falls back to, and whether it is required and takes a value.
pub struct ArgSpec {
    pub name: &'static str,
    pub short: &'static str,
    pub long: &'static str,
    pub help: &'static str,
    pub env: Option<&'static str>,
    pub required: bool,
    pub takes_value: bool,
}

/// The command line: program name, version, author and options.
pub struct AppSpec {
    pub name: &'static str,
    pub version: &'static str,
    pub author: &'static str,
    pub args: Vec<ArgSpec>,
}

/// The index of the first `-` in `s` at or after `i`, or `s.len()`.
pub open spec fn dash_from(s: Seq<char>, i: int) -> int
    decreases s.len() - i,
{
    if i < 0 || i >= s.len() {
        s.len() as int
    } else if s[i] == '-' {
        i
    } else {
        dash_from(s, i + 1)
    }
}

/// The project of an issue key such as `FOO-12`: the text before its first `-`,
/// or `None` when it has none.
pub open spec fn issue_project(issue: Seq<char>) -> Option<Seq<char>> {
    let d = dash_from(issue, 0);
    if d < issue.len() {
        Some(issue.take(d))
    } else {
        None
    }
}

/// What the issue list says of its project.
pub ghost enum ProjectCheck {
    /// Every issue is valid and they share this project (`None` for no issues).
    Shared(Option<Seq<char>>),
    /// This issue, the first without a `-`, is not a valid key.
    Invalid(Seq<char>),
    /// A later issue belongs to another project than this one, the first issue's.
    Mismatch(Seq<char>),
}

/// The verdict on `issues`, checked in order: the first invalid key, or the first
/// issue whose project differs from the first issue's, decides.
pub open spec fn project_check(issues: Seq<Seq<char>>) -> ProjectCheck
    decreases issues.len(),
{
    if issues.len() == 0 {
        ProjectCheck::Shared(None)
    } else {
        match project_check(issues.drop_last()) {
            ProjectCheck::Shared(found) => match issue_project(issues.last()) {
                None => ProjectCheck::Invalid(issues.last()),
                Some(p) => match found {
                    None => ProjectCheck::Shared(Some(p)),
                    Some(q) => if q == p {
                        ProjectCheck::Shared(Some(q))
                    } else {
                        ProjectCheck::Mismatch(q)
                    },
                },
            },
            decided => decided,
        }
    }
}

/// Once a prefix of the issues decides an error, the whole list has that error.
proof fn lemma_decided_stays(issues: Seq<Seq<char>>, n: int)
    requires
        0 <= n <= issues.len(),
        !(project_check(issues.take(n)) is Shared),
    ensures
        project_check(issues) == project_check(issues.take(n)),
    decreases issues.len() - n,
{
    if n < issues.len() {
        assert(issues.take(n + 1).drop_last() =~= issues.take(n));
        lemma_decided_stays(issues, n + 1);
    } else {
        assert(issues.take(n) =~= issues);
    }
}

/// `r` is the outcome that `check` describes.
pub open spec fn project_result(
    r: Result<Option<String>, ParamsErr>,
    check: ProjectCheck,
) -> bool {
    match check {
        ProjectCheck::Shared(found) => match r {
            Ok(Some(p)) => found == Some(p@),
            Ok(None) => found is None,
            Err(_) => false,
        },
        ProjectCheck::Invalid(issue) => r matches Err(ParamsErr::InvalidIssueErr(e)) && e@ == issue,
        ProjectCheck::Mismatch(project) => r matches Err(ParamsErr::ProjectMismatchErr(e)) && e@
            == project,
    }
}

/// The text before the first `-` of `issue`, or `None`.
fn project_prefix(issue: &str) -> (r: Option<String>)
    ensures
        match r {
            Some(p) => issue_project(issue@) == Some(p@),
            None => issue_project(issue@) is None,
        },
{
    let cs = chars_of(issue);
    let n = cs.len();
    let mut i: usize = 0;
    while i < n && cs[i] != '-'
        invariant
            n == cs@.len(),
            cs@ == issue@,
            i <= n,
            dash_from(cs@, 0) == dash_from(cs@, i as int),
        decreases n - i,
    {
        i = i + 1;
    }
    if i < n {
        let p = string_of(&cs, 0, i);
        assert(p@ =~= issue@.take(i as int));
        Some(p)
    } else {
        None
    }
}

impl ParamsErr {
    /// A sentence that describes the error.
    pub fn message(&self) -> (r: String)
        ensures
            r@ == match self {
                ParamsErr::StdinErr => "Failed to read from stdin"@,
                ParamsErr::InvalidIssueErr(issue) => "Invalid Jira issue \""@ + issue@ + "\""@,
                ParamsErr::ProjectMismatchErr(project) => "Project \""@ + project@
                    + "\" is not consistent with other issues."@,
            },
    {
        match self {
            ParamsErr::StdinErr => String::from_str("Failed to read from stdin"),
            ParamsErr::InvalidIssueErr(issue) => {
                let mut s = String::from_str("Invalid Jira issue \"");
                s.append(issue.as_str());
                s.append("\"");
                s
            },
            ParamsErr::ProjectMismatchErr(project) => {
                let mut s = String::from_str("Project \"");
                s.append(project.as_str());
                s.append("\" is not consistent with other issues.");
                s
            },
        }
    }
}

/// What an option is, its help text aside.
pub ghost struct ArgModel {
    pub name: Seq<char>,
    pub short: Seq<char>,
    pub long: Seq<char>,
    pub env: Option<Seq<char>>,
    pub required: bool,
    pub takes_value: bool,
}

/// A required option that takes a value.
pub open spec fn required_arg(
    name: Seq<char>,
    short: Seq<char>,
    long: Seq<char>,
    env: Option<Seq<char>>,
) -> ArgModel {
    ArgModel { name, short, long, env, required: true, takes_value: true }
}

/// The options that the program declares, in order.
pub open spec fn arg_table() -> Seq<ArgModel> {
    seq![
        required_arg("Jira URL"@, "U"@, "url"@, None),
        required_arg("Version name"@, "v"@, "version-name"@, None),
        required_arg("Username"@, "u"@, "username"@, Some("JIRA_USERNAME"@)),
        required_arg("Password"@, "p"@, "password"@, Some("JIRA_PASSWORD"@)),
    ]
}

impl ArgSpec {
    /// The option's model.
    pub open spec fn model(&self) -> ArgModel {
        ArgModel {
            name: self.name@,
            short: self.short@,
            long: self.long@,
            env: match self.env {
                Some(e) => Some(e@),
                None => None,
            },
            required: self.required,
            takes_value: self.takes_value,
        }
    }
}

impl Params {
    /// The command line: a URL, a version name, a username and a password, all
    /// required and taking a value; the last two fall back to `JIRA_USERNAME` and
    /// `JIRA_PASSWORD`.
    pub fn get_app() -> (r: AppSpec)
        ensures
            r.name@ == "Jira Release Tool"@,
            r.version@ == "0.3.0"@,
            r.author@ == "Jonathan Boudreau"@,
            r.args@.map_values(|a: ArgSpec| a.model()) == arg_table(),
    {
        let args = vec![
            ArgSpec {
                name: "Jira URL",
                short: "U",
                long: "url",
                help: "This is the api root url for your Jira project.",
                env: None,
                required: true,
                takes_value: true,
            },
            ArgSpec {
                name: "Version name",
                short: "v",
                long: "version-name",
                help: "The version name to use for the release.",
                env: None,
                required: true,
                takes_value: true,
            },
            ArgSpec {
                name: "Username",
                short: "u",
                long: "username",
                help: "Your Jira username. Falls back to the JIRA_USERNAME environment variable",
                env: Some("JIRA_USERNAME"),
                required: true,
                takes_value: true,
            },
            ArgSpec {
                name: "Password",
                short: "p",
                long: "password",
                help: "Jira password. Falls back to JIRA_PASSWORD environment variable",
                env: Some("JIRA_PASSWORD"),
                required: true,
                takes_value: true,
            },
        ];
        let r = AppSpec {
            name: "Jira Release Tool",
            version: "0.3.0",
            author: "Jonathan Boudreau",
            args,
        };
        assert(r.args@.map_values(|a: ArgSpec| a.model()) =~= arg_table());
        r
    }

    /// The project that all `issues` share, `None` when there are none. Fails on
    /// the first issue without a `-`, or with the first issue's project when a
    /// later issue belongs to another.
    pub fn project(issues: &Vec<String>) -> (r: Result<Option<String>, ParamsErr>)
        ensures
            project_result(r, project_check(views(issues@))),
    {
        let ghost all = views(issues@);
        let mut project: Option<String> = None;
        let mut i: usize = 0;
        while i < issues.len()
            invariant
                i <= issues@.len(),
                all == views(issues@),
                project_check(all.take(i as int)) == ProjectCheck::Shared(
                    match project {
                        Some(p) => Some(p@),
                        None => None,
                    },
                ),
            decreases issues@.len() - i,
        {
            let issue = &issues[i];
            proof {
                assert(all.take(i + 1).drop_last() =~= all.take(i as int));
                assert(all.take(i + 1).last() == issue@);
            }
            let issue_project = match project_prefix(issue.as_str()) {
                Some(p) => p,
                None => {
                    proof {
                        lemma_decided_stays(all, i + 1);
                    }
                    return Err(ParamsErr::InvalidIssueErr(issue.clone()));
                },
            };
            match project {
                Some(ref p) => {
                    if !p.eq(&issue_project) {
                        proof {
                            lemma_decided_stays(all, i + 1);
                        }
                        return Err(ParamsErr::ProjectMismatchErr(p.clone()));
                    }
                },
                None => {
                    project = Some(issue_project);
                },
            }
            i = i + 1;
        }
        proof {
            assert(all.take(i as int) =~= all);
        }
        Ok(project)
    }

    /// The parameters from the text read for the issues (one key per line) and the
    /// four option values; fails as `project` does on the issue list.
    pub fn build(
        issues_text: &str,
        username: String,
        password: String,
        url: String,
        version_name: String,
    ) -> (r: Result<Params, ParamsErr>)
        ensures
            project_check(lines_of(issues_text@)) is Shared <==> r is Ok,
            r matches Ok(p) ==> {
                &&& views(p.issues@) == lines_of(issues_text@)
                &&& project_result(Ok(p.project), project_check(lines_of(issues_text@)))
                &&& p.username == username
                &&& p.password == password
                &&& p.url == url
                &&& p.version_name == version_name
            },
            r matches Err(e) ==> project_result(Err(e), project_check(lines_of(issues_text@))),
    {
        let issues = lines(issues_text);
        let project = match Params::project(&issues) {
            Ok(p) => p,
            Err(e) => {
                return Err(e);
            },
        };
        Ok(Params { issues, username, password, url, version_name, project })
    }
}

} // verus!
