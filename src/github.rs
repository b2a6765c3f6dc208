//! The issue client's decisions: which endpoint each call goes to, with
//! which headers, and how an answer becomes a result. The host sends the
//! requests.
use vstd::prelude::*;
use crate::text::string_of;

verus! {

broadcast use vstd::string::group_string_axioms;

pub const REPO_OWNER: &'static str = "mhsenkow";

pub const REPO_NAME: &'static str = "myfacesnapjournal";

pub const API_REPOS: &'static str = "https://api.github.com/repos/";

pub const USER_AGENT: &'static str = "MyFaceSnapJournal";

pub const ACCEPT: &'static str = "application/vnd.github.v3+json";

/// A new issue, as the frontend describes it.
#[derive(Debug, Clone, PartialEq, Eq)]
pub struct CreateIssueRequest {
    pub title: String,
    pub body: String,
    pub labels: Vec<String>,
}

/// What the caller learns about an issue it created.
#[derive(Debug, Clone, PartialEq, Eq)]
pub struct CreateIssueResponse {
    pub number: u32,
    pub html_url: String,
    pub state: String,
    pub created_at: String,
    pub updated_at: String,
}

/// An issue as the remote service reports it.
#[derive(Debug, Clone, PartialEq, Eq)]
pub struct GitHubIssue {
    pub number: u32,
    pub title: String,
    pub body: String,
    pub labels: Vec<GitHubLabel>,
    pub state: String,
    pub created_at: String,
    pub updated_at: String,
    pub html_url: String,
    pub user: GitHubUser,
}

#[derive(Debug, Clone, PartialEq, Eq)]
pub struct GitHubLabel {
    pub name: String,
}

#[derive(Debug, Clone, PartialEq, Eq)]
pub struct GitHubUser {
    pub login: String,
    pub avatar_url: String,
}

/// What can go wrong with the issue client.
#[derive(Debug, Clone, PartialEq, Eq)]
pub enum GitHubError {
    /// No token was supplied for a call that needs one.
    MissingToken,
    /// The service answered with a status outside the success range, and this text.
    Api { status: u16, text: String },
}

#[derive(Debug, Clone, Copy, PartialEq, Eq)]
pub enum HttpMethod {
    Get,
    Post,
}

/// One request to the remote service.
#[derive(Debug, Clone, PartialEq, Eq)]
pub struct ApiCall {
    pub method: HttpMethod,
    pub url: String,
    /// (name, value) pairs.
    pub headers: Vec<(String, String)>,
}

/// The client of one repository's issues.
#[derive(Debug, Clone, PartialEq, Eq)]
pub struct GitHubService {
    repo_owner: String,
    repo_name: String,
    base_url: String,
}

/// The digit `d` (below ten) as a character.
pub open spec fn digit_char(d: int) -> char {
    (48 + d) as char
}

/// `n` written in decimal, without leading zeros.
pub open spec fn decimal(n: nat) -> Seq<char>
    decreases n,
{
    if n < 10 {
        seq![digit_char(n as int)]
    } else {
        decimal(n / 10).push(digit_char((n % 10) as int))
    }
}

/// The repository's API address.
pub open spec fn repo_url() -> Seq<char> {
    API_REPOS@ + REPO_OWNER@ + "/"@ + REPO_NAME@
}

/// (name, value) of each header.
pub open spec fn header_views(h: Seq<(String, String)>) -> Seq<(Seq<char>, Seq<char>)> {
    h.map_values(|p: (String, String)| (p.0@, p.1@))
}

/// The headers of every call, with an authorization line first when a token is given.
pub open spec fn headers_for(token: Option<Seq<char>>) -> Seq<(Seq<char>, Seq<char>)> {
    let common = seq![("User-Agent"@, USER_AGENT@), ("Accept"@, ACCEPT@)];
    match token {
        Some(t) => seq![("Authorization"@, "token "@ + t)] + common,
        None => common,
    }
}

fn owned(s: &str) -> (r: String)
    ensures
        r@ == s@,
{
    String::from_str(s)
}

fn decimal_chars(n: u32) -> (r: Vec<char>)
    ensures
        r@ == decimal(n as nat),
    decreases n,
{
    let d = (48 + n % 10) as u8 as char;
    if n < 10 {
        let mut r: Vec<char> = Vec::new();
        r.push(d);
        assert(r@ =~= decimal(n as nat));
        r
    } else {
        let mut r = decimal_chars(n / 10);
        r.push(d);
        r
    }
}

/// `n` in decimal.
pub fn decimal_text(n: u32) -> (r: String)
    ensures
        r@ == decimal(n as nat),
{
    string_of(&decimal_chars(n))
}

fn headers(token: Option<&str>) -> (r: Vec<(String, String)>)
    ensures
        header_views(r@) == headers_for(
            match token {
                Some(t) => Some(t@),
                None => None,
            },
        ),
{
    let mut h: Vec<(String, String)> = Vec::new();
    match token {
        Some(t) => {
            let mut value = owned("token ");
            value.append(t);
            h.push((owned("Authorization"), value));
        },
        None => {},
    }
    h.push((owned("User-Agent"), owned(USER_AGENT)));
    h.push((owned("Accept"), owned(ACCEPT)));
    assert(header_views(h@) =~= headers_for(
        match token {
            Some(t) => Some(t@),
            None => None,
        },
    ));
    h
}

impl GitHubService {
    /// The repository's API address that calls are made under.
    pub closed spec fn base_url_spec(&self) -> Seq<char> {
        self.base_url@
    }

    /// Owner of the repository.
    pub closed spec fn owner_spec(&self) -> Seq<char> {
        self.repo_owner@
    }

    /// Name of the repository.
    pub closed spec fn name_spec(&self) -> Seq<char> {
        self.repo_name@
    }

    /// The client of the application's own repository.
    pub fn new() -> (r: GitHubService)
        ensures
            r.base_url_spec() == repo_url(),
            r.owner_spec() == REPO_OWNER@,
            r.name_spec() == REPO_NAME@,
    {
        let mut base_url = owned(API_REPOS);
        base_url.append(REPO_OWNER);
        base_url.append("/");
        base_url.append(REPO_NAME);
        GitHubService { repo_owner: owned(REPO_OWNER), repo_name: owned(REPO_NAME), base_url }
    }

    fn under_base(&self, path: &str) -> (r: String)
        ensures
            r@ == self.base_url_spec() + path@,
    {
        let mut url = self.base_url.clone();
        url.append(path);
        url
    }

    /// The request that creates an issue; refused without a token.
    pub fn create_issue_call(&self, token: &str) -> (r: Result<ApiCall, GitHubError>)
        ensures
            token@.len() == 0 ==> r == Err::<ApiCall, GitHubError>(GitHubError::MissingToken),
            token@.len() > 0 ==> match r {
                Ok(c) => c.method == HttpMethod::Post && c.url@ == self.base_url_spec()
                    + "/issues"@ && header_views(c.headers@) == headers_for(Some(token@)),
                Err(_) => false,
            },
    {
        if token.unicode_len() == 0 {
            return Err(GitHubError::MissingToken);
        }
        Ok(ApiCall { method: HttpMethod::Post, url: self.under_base("/issues"), headers: headers(Some(token)) })
    }

    /// The request that reads one issue; refused without a token.
    pub fn get_issue_call(&self, issue_number: u32, token: &str) -> (r: Result<ApiCall, GitHubError>)
        ensures
            token@.len() == 0 ==> r == Err::<ApiCall, GitHubError>(GitHubError::MissingToken),
            token@.len() > 0 ==> match r {
                Ok(c) => c.method == HttpMethod::Get && c.url@ == self.base_url_spec()
                    + "/issues/"@ + decimal(issue_number as nat) && header_views(c.headers@)
                    == headers_for(Some(token@)),
                Err(_) => false,
            },
    {
        if token.unicode_len() == 0 {
            return Err(GitHubError::MissingToken);
        }
        let mut url = self.under_base("/issues/");
        url.append(decimal_text(issue_number).as_str());
        Ok(ApiCall { method: HttpMethod::Get, url, headers: headers(Some(token)) })
    }

    /// The request that lists the issues; refused without a token.
    pub fn get_issues_call(&self, token: &str) -> (r: Result<ApiCall, GitHubError>)
        ensures
            token@.len() == 0 ==> r == Err::<ApiCall, GitHubError>(GitHubError::MissingToken),
            token@.len() > 0 ==> match r {
                Ok(c) => c.method == HttpMethod::Get && c.url@ == self.base_url_spec()
                    + "/issues"@ && header_views(c.headers@) == headers_for(Some(token@)),
                Err(_) => false,
            },
    {
        if token.unicode_len() == 0 {
            return Err(GitHubError::MissingToken);
        }
        Ok(ApiCall { method: HttpMethod::Get, url: self.under_base("/issues"), headers: headers(Some(token)) })
    }

    /// The request that reads the repository's description; it needs no token.
    pub fn repository_info_call(&self) -> (r: ApiCall)
        ensures
            r.method == HttpMethod::Get,
            r.url@ == API_REPOS@ + self.owner_spec() + "/"@ + self.name_spec(),
            header_views(r.headers@) == headers_for(None),
    {
        let mut url = owned(API_REPOS);
        url.append(self.repo_owner.as_str());
        url.append("/");
        url.append(self.repo_name.as_str());
        ApiCall { method: HttpMethod::Get, url, headers: headers(None) }
    }
}

/// Whether an answer with `status` may be read as a result; if not, the
/// error carries the status and the answer's text.
pub fn check_status(status: u16, text: String) -> (r: Result<(), GitHubError>)
    ensures
        200 <= status <= 299 ==> r is Ok,
        !(200 <= status <= 299) ==> r == Err::<(), GitHubError>(GitHubError::Api { status, text }),
{
    if 200 <= status && status <= 299 {
        Ok(())
    } else {
        Err(GitHubError::Api { status, text })
    }
}

/// What the caller learns about an issue it created.
pub fn created_issue(issue: GitHubIssue) -> (r: CreateIssueResponse)
    ensures
        r.number == issue.number,
        r.html_url == issue.html_url,
        r.state == issue.state,
        r.created_at == issue.created_at,
        r.updated_at == issue.updated_at,
{
    CreateIssueResponse {
        number: issue.number,
        html_url: issue.html_url,
        state: issue.state,
        created_at: issue.created_at,
        updated_at: issue.updated_at,
    }
}

} // verus!
