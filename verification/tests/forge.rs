use gitpulse::forge::{
    after_pulls_reply, after_repo_reply, fetch_forge_stats, forge_kind_for_host, listed_pulls,
    locate, needs_gh_output, parse_host_list, parse_https, parse_link_last_page, parse_remote_url,
    parse_scp_style, parse_ssh_scheme, read_facts, resolve_github_token, resolve_token,
    urlencode_path, ApiReply, ForgeStep, RepoFacts, TokenEnv,
};
use gitpulse::json::Json;
use gitpulse::model::{ForgeKind, ForgeStats, RemoteInfo, Scheme};

// -- URL Parsing --

#[test]
fn parse_github_https() {
    let info = parse_remote_url("https://github.com/owner/repo.git", &[], &[]).unwrap();
    assert_eq!(info.kind, ForgeKind::GitHub);
    assert_eq!(info.host, "github.com");
    assert_eq!(info.owner, "owner");
    assert_eq!(info.repo_name, "repo");
}

#[test]
fn parse_github_https_no_git_suffix() {
    let info = parse_remote_url("https://github.com/owner/repo", &[], &[]).unwrap();
    assert_eq!(info.kind, ForgeKind::GitHub);
    assert_eq!(info.repo_name, "repo");
}

#[test]
fn parse_github_ssh() {
    let info = parse_remote_url("git@github.com:owner/repo.git", &[], &[]).unwrap();
    assert_eq!(info.kind, ForgeKind::GitHub);
    assert_eq!(info.host, "github.com");
    assert_eq!(info.owner, "owner");
    assert_eq!(info.repo_name, "repo");
}

#[test]
fn parse_github_ssh_no_suffix() {
    let info = parse_remote_url("git@github.com:owner/repo", &[], &[]).unwrap();
    assert_eq!(info.repo_name, "repo");
}

#[test]
fn parse_github_ssh_scheme() {
    let info = parse_remote_url("ssh://git@github.com/owner/repo.git", &[], &[]).unwrap();
    assert_eq!(info.kind, ForgeKind::GitHub);
    assert_eq!(info.owner, "owner");
    assert_eq!(info.repo_name, "repo");
}

#[test]
fn parse_github_ssh_scheme_with_port() {
    let info = parse_remote_url("ssh://git@github.com:22/owner/repo.git", &[], &[]).unwrap();
    assert_eq!(info.kind, ForgeKind::GitHub);
    assert_eq!(info.owner, "owner");
    assert_eq!(info.repo_name, "repo");
}

#[test]
fn parse_gitlab_https() {
    let info = parse_remote_url("https://gitlab.com/owner/repo.git", &[], &[]).unwrap();
    assert_eq!(info.kind, ForgeKind::GitLab);
    assert_eq!(info.host, "gitlab.com");
}

#[test]
fn parse_gitlab_ssh() {
    let info = parse_remote_url("git@gitlab.com:owner/repo.git", &[], &[]).unwrap();
    assert_eq!(info.kind, ForgeKind::GitLab);
}

#[test]
fn parse_codeberg_https() {
    let info = parse_remote_url("https://codeberg.org/owner/repo.git", &[], &[]).unwrap();
    assert_eq!(info.kind, ForgeKind::Gitea);
    assert_eq!(info.host, "codeberg.org");
}

#[test]
fn parse_codeberg_ssh() {
    let info = parse_remote_url("git@codeberg.org:owner/repo.git", &[], &[]).unwrap();
    assert_eq!(info.kind, ForgeKind::Gitea);
}

#[test]
fn parse_unknown_host_returns_none() {
    assert!(parse_remote_url("https://selfhosted.example.com/owner/repo.git", &[], &[]).is_none());
}

#[test]
fn parse_local_path_returns_none() {
    assert!(parse_remote_url("/path/to/repo", &[], &[]).is_none());
}

#[test]
fn parse_file_url_returns_none() {
    assert!(parse_remote_url("file:///path/to/repo", &[], &[]).is_none());
}

#[test]
fn parse_empty_returns_none() {
    assert!(parse_remote_url("", &[], &[]).is_none());
}

#[test]
fn parse_whitespace_returns_none() {
    assert!(parse_remote_url("  ", &[], &[]).is_none());
}

#[test]
fn parse_trims_whitespace() {
    let info = parse_remote_url("  https://github.com/owner/repo.git  ", &[], &[]).unwrap();
    assert_eq!(info.owner, "owner");
}

#[test]
fn parse_http_also_works() {
    let info = parse_remote_url("http://github.com/owner/repo.git", &[], &[]).unwrap();
    assert_eq!(info.kind, ForgeKind::GitHub);
}

#[test]
fn parse_host_case_insensitive() {
    let info = parse_remote_url("https://GitHub.COM/owner/repo", &[], &[]).unwrap();
    assert_eq!(info.kind, ForgeKind::GitHub);
    assert_eq!(info.host, "github.com");
}

#[test]
fn parse_git_plus_ssh_scheme() {
    let info = parse_remote_url("git+ssh://git@github.com/owner/repo.git", &[], &[]).unwrap();
    assert_eq!(info.kind, ForgeKind::GitHub);
    assert_eq!(info.owner, "owner");
}

#[test]
fn parse_rejects_subgroups() {
    // We only support owner/repo, not nested paths
    assert!(parse_remote_url("https://github.com/owner/sub/repo.git", &[], &[]).is_none());
}

// -- Scheme preservation --

#[test]
fn parse_https_scheme_preserved() {
    let info = parse_remote_url("https://github.com/owner/repo", &[], &[]).unwrap();
    assert_eq!(info.scheme, Scheme::Https);
}

#[test]
fn parse_http_scheme_preserved() {
    let info = parse_remote_url("http://github.com/owner/repo", &[], &[]).unwrap();
    assert_eq!(info.scheme, Scheme::Http);
}

#[test]
fn parse_ssh_defaults_to_https_scheme() {
    let info = parse_remote_url("git@github.com:owner/repo", &[], &[]).unwrap();
    assert_eq!(info.scheme, Scheme::Https);
}

#[test]
fn parse_ssh_scheme_url_defaults_to_https() {
    let info = parse_remote_url("ssh://git@github.com/owner/repo", &[], &[]).unwrap();
    assert_eq!(info.scheme, Scheme::Https);
}

#[test]
fn parse_git_plus_ssh_defaults_to_https_scheme() {
    let info = parse_remote_url("git+ssh://git@github.com/owner/repo", &[], &[]).unwrap();
    assert_eq!(info.scheme, Scheme::Https);
}

#[test]
fn parse_http_with_port_preserves_host_and_scheme() {
    // Exercises parse_https with a port in the host
    let info = parse_remote_url("http://localhost:3030/owner/repo.git", &[], &[]);
    // Returns None because localhost:3030 is not a known forge in this test,
    // but verify parse_https handles the port correctly by checking a known host.
    assert!(info.is_none());
}

// -- Custom host detection (pure function, no env var manipulation) --

#[test]
fn custom_gitea_host_detected() {
    let gitea = vec!["gitea.local:3030".to_string()];
    assert_eq!(
        forge_kind_for_host("gitea.local:3030", &gitea, &[]),
        Some(ForgeKind::Gitea),
    );
}

#[test]
fn custom_gitlab_host_detected() {
    let gitlab = vec!["gitlab.corp.com".to_string()];
    assert_eq!(
        forge_kind_for_host("gitlab.corp.com", &[], &gitlab),
        Some(ForgeKind::GitLab),
    );
}

#[test]
fn custom_host_multiple_entries() {
    let gitea = vec!["gitea1.local".to_string(), "gitea2.local:8080".to_string()];
    assert_eq!(
        forge_kind_for_host("gitea2.local:8080", &gitea, &[]),
        Some(ForgeKind::Gitea),
    );
    assert_eq!(
        forge_kind_for_host("gitea1.local", &gitea, &[]),
        Some(ForgeKind::Gitea),
    );
}

#[test]
fn custom_host_no_match_returns_none() {
    assert_eq!(
        forge_kind_for_host("unknown.host.com", &[], &[]),
        None,
    );
}

#[test]
fn custom_host_does_not_override_builtin() {
    // Built-in hosts take priority via the match arms
    let gitlab = vec!["github.com".to_string()];
    assert_eq!(
        forge_kind_for_host("github.com", &[], &gitlab),
        Some(ForgeKind::GitHub),
    );
}

#[test]
fn custom_host_gitea_before_gitlab() {
    // If same host appears in both lists, Gitea wins (checked first)
    let both = vec!["ambiguous.host".to_string()];
    assert_eq!(
        forge_kind_for_host("ambiguous.host", &both, &both),
        Some(ForgeKind::Gitea),
    );
}

#[test]
fn parse_host_list_comma_separated() {
    let input = "gitea1.local, gitea2.local:8080 , GITEA3.LOCAL";
    let result: Vec<String> = parse_host_list(input);
    assert_eq!(result, vec!["gitea1.local", "gitea2.local:8080", "gitea3.local"]);
}

#[test]
fn parse_host_list_empty_string() {
    let result: Vec<String> = parse_host_list("");
    assert!(result.is_empty());
}

// -- Scheme enum --

#[test]
fn scheme_as_str() {
    assert_eq!(Scheme::Http.as_str(), "http");
    assert_eq!(Scheme::Https.as_str(), "https");
}

// -- Link Header Parsing --

#[test]
fn parse_link_last_page_typical() {
    let header = r#"<https://api.github.com/repos/owner/repo/pulls?state=open&per_page=1&page=42>; rel="last""#;
    assert_eq!(parse_link_last_page(Some(header)), Some(42));
}

#[test]
fn parse_link_last_page_multiple_rels() {
    let header = r#"<https://example.com?page=2>; rel="next", <https://example.com?page=10>; rel="last""#;
    assert_eq!(parse_link_last_page(Some(header)), Some(10));
}

#[test]
fn parse_link_last_page_none() {
    assert_eq!(parse_link_last_page(None), None);
}

#[test]
fn parse_link_last_page_no_last_rel() {
    let header = r#"<https://example.com?page=2>; rel="next""#;
    assert_eq!(parse_link_last_page(Some(header)), None);
}

// -- URL encoding --

#[test]
fn urlencode_path_encodes_slash() {
    assert_eq!(urlencode_path("owner/repo"), "owner%2Frepo");
}

// -- Forms of an address --

#[test]
fn every_form_denotes_the_same_project() {
    let want = parse_remote_url("https://Codeberg.org/me/proj", &[], &[]).unwrap();
    assert_eq!(want.kind, ForgeKind::Gitea);
    assert_eq!(want.host, "codeberg.org");
    for url in [
        "https://codeberg.org/me/proj.git",
        "https://codeberg.org/me/proj/",
        "ssh://git@codeberg.org/me/proj.git",
        "ssh://codeberg.org:2222/me/proj",
        "ssh://git@codeberg.org:22/me/proj.git",
        "git+ssh://git@codeberg.org:22/me/proj",
        " \tgit@codeberg.org:me/proj.git\r\n",
        "\u{a0}https://codeberg.org/me/proj\n",
        "git+ssh://git@codeberg.org/me/proj",
        "git@codeberg.org:me/proj.git",
        "codeberg.org:/me/proj",
    ] {
        let info = parse_remote_url(url, &[], &[]).unwrap();
        assert_eq!(info, want, "{url}");
    }
    let plain = parse_remote_url("http://codeberg.org/me/proj", &[], &[]).unwrap();
    assert_eq!(plain.scheme, Scheme::Http);
    assert_eq!(plain.repo_name, "proj");
}

#[test]
fn a_web_port_belongs_to_the_host() {
    let gitea = vec!["forge.local:3030".to_string()];
    let info = parse_remote_url("http://Forge.local:3030/me/proj.git", &gitea, &[]).unwrap();
    assert_eq!(info.host, "forge.local:3030");
    assert_eq!(info.scheme, Scheme::Http);
    let info = parse_remote_url(" https://forge.local:3030/me/proj ", &gitea, &[]).unwrap();
    assert_eq!(info.scheme, Scheme::Https);
    assert_eq!(info.repo_name, "proj");
    assert!(parse_remote_url("https://forge.local/me/proj", &gitea, &[]).is_none());
}

#[test]
fn hosts_are_read_in_lower_case() {
    let pair = |host: &str, path: &str| Some((host.to_string(), path.to_string()));
    assert_eq!(parse_ssh_scheme("ssh://git@GitHub.com:22/O/r"), pair("github.com", "/O/r"));
    assert_eq!(parse_ssh_scheme("ssh://GitHub.com/O/r:s"), pair("github.com", "/O/r:s"));
    assert_eq!(parse_ssh_scheme("ssh://git@GitHub.com:22"), None);
    assert_eq!(parse_https("https://GitLab.COM:80/O/r"), pair("gitlab.com:80", "/O/r"));
    assert_eq!(parse_https("https://gitlab.com"), None);
    assert_eq!(parse_scp_style("git@GitHub.com:O/r.git"), pair("github.com", "O/r.git"));
    assert_eq!(parse_scp_style("GitHub.com:/O/r"), pair("github.com", "/O/r"));
    assert_eq!(parse_scp_style("github.com"), None);
    assert_eq!(
        locate("http://Example.ORG/O/r"),
        Some((Scheme::Http, "example.org".to_string(), "/O/r".to_string()))
    );
    assert_eq!(locate("ftp://example.org/O/r"), None);
}

#[test]
fn addresses_that_name_no_project() {
    for url in [
        "https://github.com",
        "https://github.com/",
        "https://github.com/owner",
        "https://github.com/owner/",
        "https://github.com//repo",
        "https://github.com/owner/.git",
        "https://user@github.com/owner/repo",
        "ssh://git@github.com",
        "ssh://git@github.com:22",
        "ftp://github.com/owner/repo",
        "github.com/owner/repo",
    ] {
        assert!(parse_remote_url(url, &[], &[]).is_none(), "{url}");
    }
}

#[test]
fn only_one_ending_is_stripped() {
    let info = parse_remote_url("git@github.com:o/r.git.git", &[], &[]).unwrap();
    assert_eq!(info.repo_name, "r.git");
}

#[test]
fn custom_hosts_are_matched_in_lower_case() {
    let hosts = parse_host_list(" Gitea.Example:3030 ,");
    let info = parse_remote_url("http://GITEA.example:3030/o/r", &hosts, &[]).unwrap();
    assert_eq!(info.kind, ForgeKind::Gitea);
    assert_eq!(info.host, "gitea.example:3030");
    assert_eq!(parse_host_list("İX"), vec!["İX".to_lowercase()]);
}

#[test]
fn last_page_is_given_up_on_a_broken_link() {
    let broken = "https://x?page=3; rel=\"last\", <https://x?page=4>; rel=\"last\"";
    assert_eq!(parse_link_last_page(Some(broken)), None);
    let other = "<https://x?per_page=1>; rel=\"last\", <https://x?page=4>; rel=\"last\"";
    assert_eq!(parse_link_last_page(Some(other)), Some(4));
    let word = "<https://x?page=many>; rel=\"last\"";
    assert_eq!(parse_link_last_page(Some(word)), None);
}

// -- Tokens --

fn env(github: Option<&str>, gitlab: Option<&str>, codeberg: Option<&str>, gitea: Option<&str>) -> TokenEnv {
    let own = |o: Option<&str>| o.map(|s| s.to_string());
    TokenEnv { github: own(github), gitlab: own(gitlab), codeberg: own(codeberg), gitea: own(gitea) }
}

#[test]
fn tokens_come_from_the_variables_of_the_forge() {
    let all = env(Some("a"), Some("b"), Some("c"), Some("d"));
    let token = |k: ForgeKind, host: &str| resolve_token(&k, host, &all, None);
    assert_eq!(token(ForgeKind::GitHub, "github.com").as_deref(), Some("a"));
    assert_eq!(token(ForgeKind::GitLab, "gitlab.com").as_deref(), Some("b"));
    assert_eq!(token(ForgeKind::Gitea, "codeberg.org").as_deref(), Some("c"));
    assert_eq!(token(ForgeKind::Gitea, "gitea.local").as_deref(), Some("d"));
    let few = env(None, None, None, Some("d"));
    assert_eq!(
        resolve_token(&ForgeKind::Gitea, "codeberg.org", &few, None).as_deref(),
        Some("d")
    );
    assert_eq!(resolve_token(&ForgeKind::GitLab, "gitlab.com", &few, None), None);
}

#[test]
fn github_token_falls_back_to_the_tool() {
    let none = env(None, None, None, None);
    assert!(needs_gh_output(&ForgeKind::GitHub, &none));
    assert!(!needs_gh_output(&ForgeKind::GitLab, &none));
    assert!(!needs_gh_output(&ForgeKind::GitHub, &env(Some(""), None, None, None)));
    let printed = |text: &str| {
        resolve_token(&ForgeKind::GitHub, "github.com", &none, Some(text.to_string()))
    };
    assert_eq!(printed(" word\n").as_deref(), Some("word"));
    assert_eq!(printed(" \n"), None);
    assert_eq!(resolve_token(&ForgeKind::GitHub, "github.com", &none, None), None);
    assert_eq!(
        resolve_github_token(&Some("var".to_string()), Some("tool".to_string())).as_deref(),
        Some("var")
    );
}

// -- Queries --

fn remote(kind: ForgeKind, host: &str, scheme: Scheme) -> RemoteInfo {
    RemoteInfo {
        kind,
        host: host.to_string(),
        scheme,
        owner: "me".to_string(),
        repo_name: "proj".to_string(),
    }
}

fn reply(body: &str, link: Option<&str>, total: Option<&str>) -> ApiReply {
    ApiReply {
        body: body.as_bytes().to_vec(),
        link: link.map(|s| s.to_string()),
        total: total.map(|s| s.to_string()),
    }
}

#[test]
fn github_is_asked_twice() {
    let info = remote(ForgeKind::GitHub, "github.com", Scheme::Https);
    let first = fetch_forge_stats(&info, Some("t"));
    assert_eq!(first.url, "https://api.github.com/repos/me/proj");
    assert_eq!(first.header, Some(("Authorization".to_string(), "Bearer t".to_string())));
    let body = r#"{"open_issues_count": 10, "fork": true}"#;
    match after_repo_reply(&info, Some("t"), &reply(body, None, None)) {
        ForgeStep::Ask(request, facts) => {
            assert_eq!(
                request.url,
                "https://api.github.com/repos/me/proj/pulls?state=open&per_page=1"
            );
            assert_eq!(request.header, first.header);
            let pages = reply("[{}]", Some("<https://x?page=4>; rel=\"last\""), None);
            let stats = after_pulls_reply(&info, facts, &pages);
            assert_eq!(stats, ForgeStats { open_prs: 4, open_issues: 6, is_fork: true });
            let one = after_pulls_reply(&info, facts, &reply("[{}]", None, None));
            assert_eq!(one, ForgeStats { open_prs: 1, open_issues: 9, is_fork: true });
            let none = after_pulls_reply(&info, facts, &reply("oops", None, None));
            assert_eq!(none, ForgeStats { open_prs: 0, open_issues: 10, is_fork: true });
            let many = reply("[]", Some("<https://x?page=40>; rel=\"last\""), None);
            assert_eq!(after_pulls_reply(&info, facts, &many).open_issues, 0);
        }
        other => panic!("unexpected {other:?}"),
    }
}

#[test]
fn gitlab_counts_in_a_header() {
    let info = remote(ForgeKind::GitLab, "git.corp:8080", Scheme::Http);
    let first = fetch_forge_stats(&info, Some("t"));
    assert_eq!(first.url, "http://git.corp:8080/api/v4/projects/me%2Fproj");
    assert_eq!(first.header, Some(("PRIVATE-TOKEN".to_string(), "t".to_string())));
    let body = r#"{"open_issues_count": 3, "forked_from_project": {"id": 1}}"#;
    match after_repo_reply(&info, None, &reply(body, None, None)) {
        ForgeStep::Ask(request, facts) => {
            assert_eq!(
                request.url,
                "http://git.corp:8080/api/v4/projects/me%2Fproj/merge_requests?state=opened&per_page=1"
            );
            assert_eq!(request.header, None);
            let stats = after_pulls_reply(&info, facts, &reply("", None, Some("7")));
            assert_eq!(stats, ForgeStats { open_prs: 7, open_issues: 3, is_fork: true });
            let odd = after_pulls_reply(&info, facts, &reply("", None, Some("x")));
            assert_eq!(odd.open_prs, 0);
        }
        other => panic!("unexpected {other:?}"),
    }
}

#[test]
fn gitea_is_asked_once() {
    let info = remote(ForgeKind::Gitea, "codeberg.org", Scheme::Https);
    let first = fetch_forge_stats(&info, Some("t"));
    assert_eq!(first.url, "https://codeberg.org/api/v1/repos/me/proj");
    assert_eq!(first.header, Some(("Authorization".to_string(), "token t".to_string())));
    let body = r#"{"open_issues_count": 3, "open_pr_counter": 2, "fork": false}"#;
    match after_repo_reply(&info, None, &reply(body, None, None)) {
        ForgeStep::Finished(Ok(stats)) => {
            assert_eq!(stats, ForgeStats { open_prs: 2, open_issues: 3, is_fork: false });
        }
        other => panic!("unexpected {other:?}"),
    }
}

#[test]
fn unreadable_reply_ends_the_query() {
    let info = remote(ForgeKind::GitHub, "github.com", Scheme::Https);
    match after_repo_reply(&info, None, &reply("<html>", None, None)) {
        ForgeStep::Finished(Err(e)) => assert!(e.starts_with("Failed to read JSON: "), "{e}"),
        other => panic!("unexpected {other:?}"),
    }
    let facts = read_facts(ForgeKind::GitHub, &Json::read(b"[]").unwrap());
    assert_eq!(facts, RepoFacts { issues: 0, prs: 0, is_fork: false });
    assert_eq!(listed_pulls(&Json::read(b"{}")), 0);
    assert_eq!(listed_pulls(&Json::read(b"[1,2]")), 2);
}

#[test]
fn the_text_of_a_parse_error_tells_the_place() {
    assert_eq!(
        Json::read(b"[1e999]").unwrap_err(),
        "Failed to read JSON: number out of range at line 1 column 7"
    );
    assert_eq!(
        Json::read(b"{\n\"a\" 1}").unwrap_err(),
        "Failed to read JSON: expected `:` at line 2 column 5"
    );
    assert_eq!(
        Json::read(b"").unwrap_err(),
        "Failed to read JSON: EOF while parsing a value at line 1 column 0"
    );
}
