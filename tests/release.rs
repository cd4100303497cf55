use sr_core::commit::Commit;
use sr_core::config::ReleaseConfig;
use sr_core::error::ReleaseError;
use sr_core::release::{check_version_files, plan_from, release_notes, ReleasePlan, TagInfo};
use sr_core::version::{BumpLevel, Version};

fn raw_commit(msg: &str) -> Commit {
    Commit {
        sha: "a".repeat(40),
        message: msg.into(),
    }
}

fn tag(name: &str, v: (u64, u64, u64), sha: &str) -> TagInfo {
    TagInfo {
        name: name.into(),
        version: Version::new(v.0, v.1, v.2),
        sha: sha.into(),
    }
}

fn plan(
    tag: Option<TagInfo>,
    commits: Vec<Commit>,
    config: &ReleaseConfig,
    force: bool,
    head: Option<String>,
) -> Result<ReleasePlan, ReleaseError> {
    plan_from(config, force, &tag, &commits, &head)
}

fn triple(v: &Version) -> (u64, u64, u64) {
    (v.major, v.minor, v.patch)
}

#[test]
fn plan_no_commits_returns_error() {
    let err = plan(None, vec![], &ReleaseConfig::default(), false, None).unwrap_err();
    assert!(matches!(err, ReleaseError::NoCommits { .. }));
}

#[test]
fn plan_no_releasable_returns_error() {
    let err = plan(
        None,
        vec![raw_commit("chore: tidy up")],
        &ReleaseConfig::default(),
        false,
        None,
    )
    .unwrap_err();
    assert!(matches!(err, ReleaseError::NoBump { .. }));
}

#[test]
fn plan_first_release() {
    let p = plan(
        None,
        vec![raw_commit("feat: initial feature")],
        &ReleaseConfig::default(),
        false,
        None,
    )
    .unwrap();
    assert_eq!(triple(&p.next_version), (0, 1, 0));
    assert_eq!(p.tag_name, "v0.1.0");
    assert!(p.current_version.is_none());
}

#[test]
fn plan_increments_existing() {
    let t = tag("v1.2.3", (1, 2, 3), &"b".repeat(40));
    let p = plan(
        Some(t),
        vec![raw_commit("fix: patch bug")],
        &ReleaseConfig::default(),
        false,
        None,
    )
    .unwrap();
    assert_eq!(triple(&p.next_version), (1, 2, 4));
}

#[test]
fn plan_breaking_bump() {
    let t = tag("v1.2.3", (1, 2, 3), &"c".repeat(40));
    let p = plan(
        Some(t),
        vec![raw_commit("feat!: breaking change")],
        &ReleaseConfig::default(),
        false,
        None,
    )
    .unwrap();
    assert_eq!(triple(&p.next_version), (2, 0, 0));
}

#[test]
fn plan_floating_tag_when_enabled() {
    let t = tag("v3.2.0", (3, 2, 0), &"d".repeat(40));
    let mut config = ReleaseConfig::default();
    config.floating_tags = true;
    let p = plan(Some(t), vec![raw_commit("fix: patch")], &config, false, None).unwrap();
    assert_eq!(triple(&p.next_version), (3, 2, 1));
    assert_eq!(p.floating_tag_name.as_deref(), Some("v3"));
}

#[test]
fn plan_no_floating_tag_when_disabled() {
    let p = plan(
        None,
        vec![raw_commit("feat: something")],
        &ReleaseConfig::default(),
        false,
        None,
    )
    .unwrap();
    assert!(p.floating_tag_name.is_none());
}

#[test]
fn plan_floating_tag_custom_prefix() {
    let t = tag("release-2.5.0", (2, 5, 0), &"e".repeat(40));
    let mut config = ReleaseConfig::default();
    config.floating_tags = true;
    config.tag_prefix = "release-".into();
    let p = plan(Some(t), vec![raw_commit("fix: patch")], &config, false, None).unwrap();
    assert_eq!(p.floating_tag_name.as_deref(), Some("release-2"));
}

#[test]
fn force_rerelease_when_tag_at_head() {
    let t = tag("v1.2.3", (1, 2, 3), &"a".repeat(40));
    let p = plan(
        Some(t),
        vec![],
        &ReleaseConfig::default(),
        true,
        Some("a".repeat(40)),
    )
    .unwrap();
    assert_eq!(triple(&p.next_version), (1, 2, 3));
    assert_eq!(p.tag_name, "v1.2.3");
    assert!(p.commits.is_empty());
    assert_eq!(p.current_version.as_ref().map(triple), Some((1, 2, 3)));
}

#[test]
fn force_fails_when_tag_not_at_head() {
    let t = tag("v1.2.3", (1, 2, 3), &"a".repeat(40));
    let err = plan(
        Some(t),
        vec![],
        &ReleaseConfig::default(),
        true,
        Some("b".repeat(40)),
    )
    .unwrap_err();
    assert!(matches!(err, ReleaseError::NoCommits { .. }));
}

#[test]
fn force_fails_with_no_tags() {
    let err = plan(None, vec![], &ReleaseConfig::default(), true, None).unwrap_err();
    assert!(matches!(err, ReleaseError::NoCommits { .. }));
}

#[test]
fn plan_mixed_bumps_take_highest() {
    let p = plan(
        None,
        vec![raw_commit("fix: a"), raw_commit("feat: b")],
        &ReleaseConfig::default(),
        false,
        None,
    )
    .unwrap();
    assert_eq!(p.bump, BumpLevel::Minor);
    let q = plan(
        None,
        vec![raw_commit("fix: a"), raw_commit("feat: b"), raw_commit("feat!: c")],
        &ReleaseConfig::default(),
        false,
        None,
    )
    .unwrap();
    assert_eq!(q.bump, BumpLevel::Major);
    assert_eq!(q.tag_name, "v1.0.0");
}

#[test]
fn plan_drops_unparseable_commits() {
    let p = plan(
        None,
        vec![raw_commit("random words"), raw_commit("fix: real")],
        &ReleaseConfig::default(),
        false,
        None,
    )
    .unwrap();
    assert_eq!(p.commits.len(), 1);
    assert_eq!(p.commits[0].description, "real");
    let err = plan(
        None,
        vec![raw_commit("random words"), raw_commit("docs: readme")],
        &ReleaseConfig::default(),
        false,
        None,
    )
    .unwrap_err();
    assert!(matches!(err, ReleaseError::NoBump { commit_count: 1, .. }));
}

#[test]
fn plan_overflow_is_an_error() {
    let t = tag("v1.2.3", (u64::MAX, 0, 0), "x");
    let err = plan(Some(t), vec![raw_commit("feat!: x")], &ReleaseConfig::default(), false, None)
        .unwrap_err();
    assert!(matches!(err, ReleaseError::Config(_)));
}

#[test]
fn release_notes_for_plan() {
    let p = plan(
        None,
        vec![raw_commit("feat: something")],
        &ReleaseConfig::default(),
        false,
        None,
    )
    .unwrap();
    let notes = release_notes(
        &ReleaseConfig::default(),
        &p,
        "2026-01-01",
        Some("https://h/o/r".into()),
    )
    .unwrap();
    let sha = "a".repeat(40);
    assert_eq!(
        notes,
        format!("## 0.1.0 (2026-01-01)\n\n### Features\n\n- something ([aaaaaaa](https://h/o/r/commit/{sha}))")
    );
}

#[test]
fn strict_mode_rejects_unsupported_files() {
    let mut config = ReleaseConfig::default();
    config.version_files = vec!["Cargo.toml".into(), "notes.txt".into()];
    assert!(check_version_files(&config).is_ok());
    config.version_files_strict = true;
    assert!(matches!(
        check_version_files(&config),
        Err(ReleaseError::VersionBump(_))
    ));
}
