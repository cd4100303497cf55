use sr_core::changelog::{merge_changelog, ChangelogEntry, DefaultChangelogFormatter};
use sr_core::commit::{default_commit_types, ConventionalCommit};

fn make_commit(type_: &str, desc: &str, scope: Option<&str>, breaking: bool) -> ConventionalCommit {
    ConventionalCommit {
        sha: "abc1234def5678".into(),
        commit_type: type_.into(),
        scope: scope.map(Into::into),
        description: desc.into(),
        body: None,
        breaking,
        author: None,
    }
}

fn make_commit_with_author(
    type_: &str,
    desc: &str,
    scope: Option<&str>,
    breaking: bool,
    author: &str,
) -> ConventionalCommit {
    ConventionalCommit {
        sha: "abc1234def5678".into(),
        commit_type: type_.into(),
        scope: scope.map(Into::into),
        description: desc.into(),
        body: None,
        breaking,
        author: Some(author.into()),
    }
}

fn entry(commits: Vec<ConventionalCommit>, compare_url: Option<&str>) -> ChangelogEntry {
    ChangelogEntry {
        version: "1.0.0".into(),
        date: "2025-01-01".into(),
        commits,
        compare_url: compare_url.map(Into::into),
        repo_url: None,
        contributor_map: Vec::new(),
    }
}

fn format(entries: &[ChangelogEntry]) -> String {
    DefaultChangelogFormatter::new(
        None,
        default_commit_types(),
        "Breaking Changes".into(),
        "Miscellaneous".into(),
    )
    .format(entries)
    .unwrap()
}

#[test]
fn format_features_only() {
    let out = format(&[entry(vec![make_commit("feat", "add button", None, false)], None)]);
    assert!(out.contains("## 1.0.0"));
    assert!(out.contains("### Features"));
    assert!(out.contains("add button"));
}

#[test]
fn format_fixes_only() {
    let out = format(&[entry(vec![make_commit("fix", "null check", None, false)], None)]);
    assert!(out.contains("### Bug Fixes"));
    assert!(out.contains("null check"));
}

#[test]
fn format_breaking_changes() {
    let out = format(&[entry(vec![make_commit("feat", "new API", None, true)], None)]);
    assert!(out.contains("### Breaking Changes"));
}

#[test]
fn format_mixed_commits() {
    let commits = vec![
        make_commit("feat", "add button", None, false),
        make_commit("fix", "null check", None, false),
        make_commit("feat", "breaking thing", None, true),
    ];
    let out = format(&[entry(commits, None)]);
    assert!(out.contains("### Features"));
    assert!(out.contains("### Bug Fixes"));
    assert!(out.contains("### Breaking Changes"));
}

#[test]
fn format_with_scope() {
    let out = format(&[entry(vec![make_commit("feat", "add flag", Some("cli"), false)], None)]);
    assert!(out.contains("**cli**:"));
}

#[test]
fn format_with_compare_url() {
    let out = format(&[entry(
        vec![make_commit("feat", "add button", None, false)],
        Some("https://github.com/o/r/compare/v0.1.0...v1.0.0"),
    )]);
    assert!(out.contains("[Full Changelog]"));
}

#[test]
fn format_empty_entries() {
    let out = format(&[entry(vec![], None)]);
    assert!(!out.contains("### Features"));
    assert!(!out.contains("### Bug Fixes"));
    assert!(!out.contains("### Breaking Changes"));
}

#[test]
fn format_with_commit_links() {
    let mut e = entry(vec![make_commit("feat", "add button", None, false)], None);
    e.repo_url = Some("https://github.com/o/r".into());
    let out = format(&[e]);
    assert!(out.contains("[abc1234](https://github.com/o/r/commit/abc1234def5678)"));
}

#[test]
fn format_breaking_at_top() {
    let commits = vec![
        make_commit("feat", "add button", None, false),
        make_commit("feat", "breaking thing", None, true),
    ];
    let out = format(&[entry(commits, None)]);
    let breaking_pos = out.find("### Breaking Changes").unwrap();
    let features_pos = out.find("### Features").unwrap();
    assert!(
        breaking_pos < features_pos,
        "Breaking Changes should appear before Features"
    );
}

#[test]
fn format_misc_catch_all() {
    let commits = vec![
        make_commit("feat", "add button", None, false),
        make_commit("chore", "tidy up", None, false),
        make_commit("ci", "fix pipeline", None, false),
    ];
    let out = format(&[entry(commits, None)]);
    assert!(out.contains("### Miscellaneous"));
    assert!(out.contains("tidy up"));
    assert!(out.contains("fix pipeline"));
}

#[test]
fn format_contributors() {
    let commits = vec![
        make_commit_with_author("feat", "add button", None, false, "Alice"),
        make_commit_with_author("fix", "null check", None, false, "Bob"),
        make_commit_with_author("feat", "add flag", None, false, "Alice"),
    ];
    let out = format(&[entry(commits, None)]);
    assert!(out.contains("### Contributors"));
    assert!(out.contains("- Alice"));
    assert!(out.contains("- Bob"));
    assert_eq!(out.matches("- Alice").count(), 1);
}

#[test]
fn format_no_contributors_without_authors() {
    let out = format(&[entry(vec![make_commit("feat", "add button", None, false)], None)]);
    assert!(!out.contains("### Contributors"));
}

#[test]
fn format_breaking_excluded_from_type_sections() {
    let commits = vec![
        make_commit("feat", "normal feature", None, false),
        make_commit("feat", "breaking feature", None, true),
    ];
    let out = format(&[entry(commits, None)]);
    let features_section_start = out.find("### Features").unwrap();
    let features_section_end = out[features_section_start..]
        .find("\n### ")
        .map(|p| features_section_start + p)
        .unwrap_or(out.len());
    let features_section = &out[features_section_start..features_section_end];
    assert!(features_section.contains("normal feature"));
    assert!(!features_section.contains("breaking feature"));
}

#[test]
fn format_new_type_sections() {
    let commits = vec![
        make_commit("perf", "speed up query", None, false),
        make_commit("docs", "update readme", None, false),
        make_commit("refactor", "clean up code", None, false),
        make_commit("revert", "undo change", None, false),
    ];
    let out = format(&[entry(commits, None)]);
    assert!(out.contains("### Performance"));
    assert!(out.contains("### Documentation"));
    assert!(out.contains("### Refactoring"));
    assert!(out.contains("### Reverts"));
}

#[test]
fn format_contributors_with_github_usernames() {
    let commits = vec![
        make_commit_with_author("feat", "add button", None, false, "Alice"),
        make_commit_with_author("fix", "null check", None, false, "Bob"),
    ];
    let mut e = entry(commits, None);
    e.contributor_map = vec![
        ("Alice".into(), "@alice".into()),
        ("Bob".into(), "@bob".into()),
    ];
    let out = format(&[e]);
    assert!(out.contains("- @alice"));
    assert!(out.contains("- @bob"));
    assert!(!out.contains("- Alice"));
    assert!(!out.contains("- Bob"));
}

#[test]
fn format_contributors_partial_resolution() {
    let commits = vec![
        make_commit_with_author("feat", "add button", None, false, "Alice"),
        make_commit_with_author("fix", "null check", None, false, "Bob"),
    ];
    let mut e = entry(commits, None);
    e.contributor_map = vec![("Alice".into(), "@alice".into())];
    let out = format(&[e]);
    assert!(out.contains("- @alice"));
    assert!(out.contains("- Bob"));
}

#[test]
fn format_contributors_fallback_no_map() {
    let commits = vec![
        make_commit_with_author("feat", "add button", None, false, "Alice"),
        make_commit_with_author("fix", "null check", None, false, "Bob"),
    ];
    let out = format(&[entry(commits, None)]);
    assert!(out.contains("- Alice"));
    assert!(out.contains("- Bob"));
}

#[test]
fn unique_author_shas_deduplication() {
    let mk = |sha: &str, t: &str, d: &str, a: &str| ConventionalCommit {
        sha: sha.into(),
        commit_type: t.into(),
        scope: None,
        description: d.into(),
        body: None,
        breaking: false,
        author: Some(a.into()),
    };
    let commits = vec![
        mk("aaa1111", "feat", "first", "Alice"),
        mk("bbb2222", "fix", "second", "Alice"),
        mk("ccc3333", "feat", "third", "Bob"),
    ];
    let e = entry(commits, None);
    let pairs = e.unique_author_shas();
    assert_eq!(pairs.len(), 2);
    assert_eq!(pairs[0], ("Alice", "aaa1111"));
    assert_eq!(pairs[1], ("Bob", "ccc3333"));
}

#[test]
fn format_exact_output_breaking_then_features_then_fixes() {
    let commits = vec![
        make_commit("fix", "null check", None, false),
        make_commit("feat", "new API", Some("core"), true),
    ];
    let out = format(&[entry(commits, None)]);
    assert_eq!(
        out,
        "## 1.0.0 (2025-01-01)\n\n### Breaking Changes\n\n- **core**: new API (abc1234)\n\n### Bug Fixes\n\n- null check (abc1234)"
    );
}

#[test]
fn format_unknown_type_is_omitted_and_short_sha_kept() {
    let mut c = make_commit("wip", "secret", None, false);
    c.sha = "abc".into();
    let mut d = make_commit("fix", "visible", None, false);
    d.sha = "abc".into();
    let out = format(&[entry(vec![c, d], None)]);
    assert!(!out.contains("secret"));
    assert!(out.contains("- visible (abc)"));
}

#[test]
fn format_contributors_sorted() {
    let commits = vec![
        make_commit_with_author("feat", "a", None, false, "Zed"),
        make_commit_with_author("fix", "b", None, false, "Amy"),
    ];
    let out = format(&[entry(commits, None)]);
    assert!(out.ends_with("### Contributors\n\n- Amy\n- Zed"));
}

#[test]
fn format_two_entries_in_given_order() {
    let mut a = entry(vec![make_commit("fix", "one", None, false)], None);
    a.version = "2.0.0".into();
    let b = entry(vec![make_commit("fix", "two", None, false)], None);
    let out = format(&[a, b]);
    assert!(out.find("## 2.0.0").unwrap() < out.find("## 1.0.0").unwrap());
    assert!(!out.ends_with('\n'));
}

#[test]
fn merge_changelog_into_new_file() {
    assert_eq!(merge_changelog("", "## 1.0.0"), "# Changelog\n\n## 1.0.0\n");
}

#[test]
fn merge_changelog_after_heading() {
    let existing = "# Changelog\n\n## 0.1.0 (x)\n- old\n";
    assert_eq!(
        merge_changelog(existing, "## 0.2.0 (y)"),
        "# Changelog\n\n## 0.2.0 (y)\n\n\n## 0.1.0 (x)\n- old\n"
    );
}

#[test]
fn merge_changelog_without_blank_line() {
    assert_eq!(merge_changelog("# Log", "## 1.0.0"), "# Log\n\n## 1.0.0\n");
}
