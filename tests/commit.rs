use sr_core::commit::{
    default_commit_types, Commit, CommitClassifier, DefaultCommitClassifier, DefaultCommitParser,
    DEFAULT_COMMIT_PATTERN,
};
use sr_core::error::ReleaseError;
use sr_core::version::BumpLevel;

fn raw(message: &str) -> Commit {
    Commit {
        sha: "abc1234".into(),
        message: message.into(),
    }
}

#[test]
fn parse_simple_feat() {
    let result = DefaultCommitParser.parse(&raw("feat: add button")).unwrap();
    assert_eq!(result.commit_type, "feat");
    assert_eq!(result.description, "add button");
    assert_eq!(result.scope, None);
    assert!(!result.breaking);
}

#[test]
fn parse_scoped_fix() {
    let result = DefaultCommitParser.parse(&raw("fix(core): null check")).unwrap();
    assert_eq!(result.commit_type, "fix");
    assert_eq!(result.scope.as_deref(), Some("core"));
}

#[test]
fn parse_breaking_bang() {
    let result = DefaultCommitParser.parse(&raw("feat!: new API")).unwrap();
    assert!(result.breaking);
}

#[test]
fn parse_with_body() {
    let result = DefaultCommitParser.parse(&raw("fix: x\n\ndetails")).unwrap();
    assert_eq!(result.body.as_deref(), Some("details"));
}

#[test]
fn parse_invalid_message() {
    let result = DefaultCommitParser.parse(&raw("not conventional"));
    assert!(result.is_err());
}

#[test]
fn parse_rejects_empty_scope_and_missing_space() {
    assert!(DefaultCommitParser.parse(&raw("feat(): x")).is_err());
    assert!(DefaultCommitParser.parse(&raw("feat(core: x")).is_err());
    assert!(DefaultCommitParser.parse(&raw("feat:x")).is_err());
    assert!(DefaultCommitParser.parse(&raw(": x")).is_err());
    assert!(matches!(
        DefaultCommitParser.parse(&raw("fix: \n")),
        Err(ReleaseError::Config(_))
    ));
}

#[test]
fn parse_scope_breaking_and_description_line() {
    let c = DefaultCommitParser
        .parse(&raw("refactor(api)!:   rename things\nmore\n\nbody text"))
        .unwrap();
    assert_eq!(c.commit_type, "refactor");
    assert_eq!(c.scope.as_deref(), Some("api"));
    assert!(c.breaking);
    assert_eq!(c.description, "rename things");
    assert_eq!(c.body.as_deref(), Some("body text"));
    assert_eq!(c.sha, "abc1234");
    assert_eq!(c.author, None);
}

#[test]
fn parse_description_after_blank_lines() {
    let c = DefaultCommitParser.parse(&raw("fix:\n\ndetails")).unwrap();
    assert_eq!(c.description, "details");
    let d = DefaultCommitParser.parse(&raw("fix:   ")).unwrap();
    assert_eq!(d.description, " ");
}

#[test]
fn classifier_bump_level_feat() {
    let c = DefaultCommitClassifier::default();
    assert_eq!(c.bump_level("feat", false), Some(BumpLevel::Minor));
}

#[test]
fn classifier_bump_level_fix() {
    let c = DefaultCommitClassifier::default();
    assert_eq!(c.bump_level("fix", false), Some(BumpLevel::Patch));
}

#[test]
fn classifier_bump_level_breaking_overrides() {
    let c = DefaultCommitClassifier::default();
    assert_eq!(c.bump_level("fix", true), Some(BumpLevel::Major));
    assert_eq!(c.bump_level("chore", true), Some(BumpLevel::Major));
}

#[test]
fn classifier_bump_level_no_bump_type() {
    let c = DefaultCommitClassifier::default();
    assert_eq!(c.bump_level("chore", false), None);
    assert_eq!(c.bump_level("docs", false), None);
}

#[test]
fn classifier_bump_level_unknown_type() {
    let c = DefaultCommitClassifier::default();
    assert_eq!(c.bump_level("unknown", false), None);
}

#[test]
fn classifier_changelog_section() {
    let c = DefaultCommitClassifier::default();
    assert_eq!(c.changelog_section("feat"), Some("Features"));
    assert_eq!(c.changelog_section("fix"), Some("Bug Fixes"));
    assert_eq!(c.changelog_section("perf"), Some("Performance"));
    assert_eq!(c.changelog_section("docs"), Some("Documentation"));
    assert_eq!(c.changelog_section("refactor"), Some("Refactoring"));
    assert_eq!(c.changelog_section("revert"), Some("Reverts"));
    assert_eq!(c.changelog_section("chore"), None);
    assert_eq!(c.changelog_section("unknown"), None);
}

#[test]
fn classifier_is_allowed() {
    let c = DefaultCommitClassifier::default();
    assert!(c.is_allowed("feat"));
    assert!(c.is_allowed("chore"));
    assert!(!c.is_allowed("unknown"));
}

#[test]
fn classifier_pattern() {
    let c = DefaultCommitClassifier::default();
    assert_eq!(c.pattern(), DEFAULT_COMMIT_PATTERN);
}

#[test]
fn default_commit_types_count() {
    let types = default_commit_types();
    assert_eq!(types.len(), 11);
}

#[test]
fn classifier_first_rule_wins() {
    let mut types = default_commit_types();
    types.push(sr_core::commit::CommitType {
        name: "feat".into(),
        bump: Some(BumpLevel::Major),
        section: None,
    });
    let c = DefaultCommitClassifier::new(types, String::new());
    assert_eq!(c.bump_level("feat", false), Some(BumpLevel::Minor));
    assert_eq!(c.types().len(), 12);
}
