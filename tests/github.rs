use snapjournal_ai::github::{
    check_status, created_issue, decimal_text, GitHubError, GitHubIssue, GitHubLabel,
    GitHubService, GitHubUser, HttpMethod,
};

fn pairs(h: &[(String, String)]) -> Vec<(&str, &str)> {
    h.iter().map(|(a, b)| (a.as_str(), b.as_str())).collect()
}

#[test]
fn create_issue_needs_a_token() {
    let service = GitHubService::new();
    assert_eq!(service.create_issue_call(""), Err(GitHubError::MissingToken));
    assert_eq!(service.get_issues_call(""), Err(GitHubError::MissingToken));
    assert_eq!(service.get_issue_call(7, ""), Err(GitHubError::MissingToken));
}

#[test]
fn create_issue_call_shape() {
    let call = GitHubService::new().create_issue_call("abc").unwrap();
    assert_eq!(call.method, HttpMethod::Post);
    assert_eq!(call.url, "https://api.github.com/repos/mhsenkow/myfacesnapjournal/issues");
    assert_eq!(
        pairs(&call.headers),
        vec![
            ("Authorization", "token abc"),
            ("User-Agent", "MyFaceSnapJournal"),
            ("Accept", "application/vnd.github.v3+json")
        ]
    );
}

#[test]
fn read_calls_shape() {
    let service = GitHubService::new();
    let one = service.get_issue_call(42, "t").unwrap();
    assert_eq!(one.method, HttpMethod::Get);
    assert_eq!(one.url, "https://api.github.com/repos/mhsenkow/myfacesnapjournal/issues/42");
    let all = service.get_issues_call("t").unwrap();
    assert_eq!(all.url, "https://api.github.com/repos/mhsenkow/myfacesnapjournal/issues");
    let info = service.repository_info_call();
    assert_eq!(info.url, "https://api.github.com/repos/mhsenkow/myfacesnapjournal");
    assert_eq!(
        pairs(&info.headers),
        vec![("User-Agent", "MyFaceSnapJournal"), ("Accept", "application/vnd.github.v3+json")]
    );
}

#[test]
fn decimal_numbers() {
    assert_eq!(decimal_text(0), "0");
    assert_eq!(decimal_text(9), "9");
    assert_eq!(decimal_text(10), "10");
    assert_eq!(decimal_text(4_294_967_295), "4294967295");
}

#[test]
fn status_outside_success_is_an_error() {
    assert_eq!(check_status(201, "x".to_string()), Ok(()));
    assert_eq!(
        check_status(404, "Not Found".to_string()),
        Err(GitHubError::Api { status: 404, text: "Not Found".to_string() })
    );
}

#[test]
fn created_issue_keeps_the_fields() {
    let issue = GitHubIssue {
        number: 5,
        title: "t".to_string(),
        body: "b".to_string(),
        labels: vec![GitHubLabel { name: "bug".to_string() }],
        state: "open".to_string(),
        created_at: "2024-01-01T00:00:00Z".to_string(),
        updated_at: "2024-01-02T00:00:00Z".to_string(),
        html_url: "https://github.com/x/y/issues/5".to_string(),
        user: GitHubUser { login: "u".to_string(), avatar_url: "a".to_string() },
    };
    let r = created_issue(issue);
    assert_eq!(r.number, 5);
    assert_eq!(r.html_url, "https://github.com/x/y/issues/5");
    assert_eq!(r.state, "open");
    assert_eq!(r.created_at, "2024-01-01T00:00:00Z");
    assert_eq!(r.updated_at, "2024-01-02T00:00:00Z");
}
