use base64::Engine;
use sr_core::commit::Commit;
use sr_core::remote::{
    auth_header_value, extraheader_key, parse_commit_log, parse_owner_repo, parse_remote_url,
    trim_text, NativeGitRepository,
};

#[test]
fn parse_ssh_remote() {
    let (owner, repo) = parse_owner_repo("git@github.com:urmzd/semantic-release.git").unwrap();
    assert_eq!(owner, "urmzd");
    assert_eq!(repo, "semantic-release");
}

#[test]
fn parse_https_remote() {
    let (owner, repo) = parse_owner_repo("https://github.com/urmzd/semantic-release.git").unwrap();
    assert_eq!(owner, "urmzd");
    assert_eq!(repo, "semantic-release");
}

#[test]
fn parse_https_no_git_suffix() {
    let (owner, repo) = parse_owner_repo("https://github.com/urmzd/semantic-release").unwrap();
    assert_eq!(owner, "urmzd");
    assert_eq!(repo, "semantic-release");
}

#[test]
fn parse_remote_url_github_https() {
    let (host, owner, repo) =
        parse_remote_url("https://github.com/urmzd/semantic-release.git").unwrap();
    assert_eq!(host, "github.com");
    assert_eq!(owner, "urmzd");
    assert_eq!(repo, "semantic-release");
}

#[test]
fn parse_remote_url_github_ssh() {
    let (host, owner, repo) = parse_remote_url("git@github.com:urmzd/semantic-release.git").unwrap();
    assert_eq!(host, "github.com");
    assert_eq!(owner, "urmzd");
    assert_eq!(repo, "semantic-release");
}

#[test]
fn parse_remote_url_ghes_https() {
    let (host, owner, repo) = parse_remote_url("https://ghes.example.com/org/my-repo.git").unwrap();
    assert_eq!(host, "ghes.example.com");
    assert_eq!(owner, "org");
    assert_eq!(repo, "my-repo");
}

#[test]
fn parse_remote_url_ghes_ssh() {
    let (host, owner, repo) = parse_remote_url("git@ghes.example.com:org/my-repo.git").unwrap();
    assert_eq!(host, "ghes.example.com");
    assert_eq!(owner, "org");
    assert_eq!(repo, "my-repo");
}

#[test]
fn parse_remote_url_no_git_suffix() {
    let (host, owner, repo) = parse_remote_url("https://github.com/urmzd/semantic-release").unwrap();
    assert_eq!(host, "github.com");
    assert_eq!(owner, "urmzd");
    assert_eq!(repo, "semantic-release");
}

#[test]
fn parse_remote_url_rejects_other_shapes() {
    assert!(parse_remote_url("https://github.com").is_err());
    assert!(parse_remote_url("just-a-name").is_err());
    assert!(parse_remote_url("host:noslash").is_err());
    let (host, _, repo) = parse_remote_url("http://h/o/r.git.git").unwrap();
    assert_eq!(host, "h");
    assert_eq!(repo, "r");
}

#[test]
fn http_auth_header_encodes_correctly() {
    let header = auth_header_value("ghp_testtoken123");
    let encoded = header.strip_prefix("AUTHORIZATION: basic ").unwrap();
    let decoded_bytes = base64::engine::general_purpose::STANDARD
        .decode(encoded)
        .expect("base64 should decode");
    let decoded = String::from_utf8(decoded_bytes).expect("should be valid utf-8");
    assert_eq!(decoded, "x-access-token:ghp_testtoken123");
    assert_eq!(encoded, "eC1hY2Nlc3MtdG9rZW46Z2hwX3Rlc3R0b2tlbjEyMw==");
}

#[test]
fn http_auth_header_scoped_to_hostname() {
    assert_eq!(
        extraheader_key("ghes.example.com"),
        "http.https://ghes.example.com/.extraheader"
    );
    assert_eq!(extraheader_key("github.com"), "http.https://github.com/.extraheader");
}

#[test]
fn command_args_with_and_without_auth() {
    let repo = NativeGitRepository::open("/repo");
    let args = vec!["status".to_string()];
    assert_eq!(repo.command_args(&args), vec!["-C", "/repo", "status"]);
    let repo = repo.with_http_auth("github.com".into(), "tok".into());
    let full = repo.command_args(&args);
    assert_eq!(full.len(), 7);
    assert_eq!(full[3], "http.https://github.com/.extraheader=");
    assert!(full[5].starts_with("http.https://github.com/.extraheader=AUTHORIZATION: basic "));
    assert_eq!(full[6], "status");
}

#[test]
fn parse_commit_log_reads_commits() {
    let a = "a".repeat(40);
    let b = "B".repeat(40);
    let log = format!("{a}\nfeat: one\n\nbody\n--END--\n{b}\r\nfix: two  \n--END--\n");
    let commits: Vec<Commit> = parse_commit_log(&log);
    assert_eq!(commits.len(), 2);
    assert_eq!(commits[0].sha, a);
    assert_eq!(commits[0].message, "feat: one\n\nbody");
    assert_eq!(commits[1].sha, b);
    assert_eq!(commits[1].message, "fix: two");
}

#[test]
fn parse_commit_log_empty_and_unterminated() {
    assert!(parse_commit_log("").is_empty());
    let a = "0123456789abcdef0123456789abcdef01234567";
    let commits = parse_commit_log(&format!("{a}\n  chore: x  "));
    assert_eq!(commits.len(), 1);
    assert_eq!(commits[0].message, "chore: x");
    assert_eq!(trim_text("  a b \n"), "a b");
}
