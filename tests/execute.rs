use sr_core::commit::Commit;
use sr_core::config::ReleaseConfig;
use sr_core::error::ReleaseError;
use sr_core::execute::{Action, Execution, Outcome};
use sr_core::release::{plan_from, ReleasePlan, TagInfo};
use sr_core::version::Version;

#[derive(Default)]
struct Fake {
    created_tags: Vec<String>,
    pushed_tags: Vec<String>,
    committed: Vec<(Vec<String>, String)>,
    push_count: u32,
    force_created_tags: Vec<String>,
    force_pushed_tags: Vec<String>,
    releases: Vec<(String, String)>,
    deleted_releases: Vec<String>,
    uploaded_assets: Vec<(String, Vec<String>)>,
    bumped: Vec<String>,
    changelog_writes: Vec<String>,
    builds: Vec<(String, String)>,
    artifact_matches: Vec<String>,
}

fn run(fake: &mut Fake, plan: &ReleasePlan, config: &ReleaseConfig, has_vcs: bool) -> Result<(), ReleaseError> {
    let (mut e, mut a) = Execution::start(plan, config, "notes", has_vcs);
    loop {
        let outcome = match a {
            Action::Finish => return Ok(()),
            Action::Abort(err) => return Err(err),
            Action::BumpFile { path, .. } => {
                if path.ends_with("Cargo.toml") {
                    fake.bumped.push(path);
                    Outcome::Done
                } else {
                    Outcome::Failed(ReleaseError::VersionBump(path))
                }
            }
            Action::WriteChangelog { path, .. } => {
                fake.changelog_writes.push(path);
                Outcome::Done
            }
            Action::RunBuild { command, version, .. } => {
                if command == "exit 1" {
                    Outcome::Failed(ReleaseError::BuildCommand("exit 1".into()))
                } else {
                    fake.builds.push((command, version));
                    Outcome::Done
                }
            }
            Action::StageAndCommit { paths, message } => {
                fake.committed.push((paths, message));
                Outcome::Done
            }
            Action::CheckTag { tag } => Outcome::Answer(fake.created_tags.contains(&tag)),
            Action::CreateTag { tag, .. } => {
                fake.created_tags.push(tag);
                Outcome::Done
            }
            Action::Push => {
                fake.push_count += 1;
                Outcome::Done
            }
            Action::CheckRemoteTag { tag } => Outcome::Answer(fake.pushed_tags.contains(&tag)),
            Action::PushTag { tag } => {
                fake.pushed_tags.push(tag);
                Outcome::Done
            }
            Action::ForceCreateTag { tag, .. } => {
                fake.force_created_tags.push(tag);
                Outcome::Done
            }
            Action::ForcePushTag { tag } => {
                fake.force_pushed_tags.push(tag);
                Outcome::Done
            }
            Action::CheckRelease { tag } => {
                Outcome::Answer(fake.releases.iter().any(|(t, _)| *t == tag))
            }
            Action::DeleteRelease { tag } => {
                fake.releases.retain(|(t, _)| *t != tag);
                fake.deleted_releases.push(tag);
                Outcome::Done
            }
            Action::CreateRelease { tag, body, .. } => {
                fake.releases.push((tag, body));
                Outcome::Done
            }
            Action::ResolveArtifacts { .. } => Outcome::Files(fake.artifact_matches.clone()),
            Action::UploadAssets { tag, files } => {
                fake.uploaded_assets.push((tag, files));
                Outcome::Done
            }
        };
        a = e.advance(outcome);
    }
}

fn raw_commit(msg: &str) -> Commit {
    Commit {
        sha: "a".repeat(40),
        message: msg.into(),
    }
}

fn make_plan(tag: Option<TagInfo>, msg: &str, config: &ReleaseConfig) -> ReleasePlan {
    plan_from(config, false, &tag, &vec![raw_commit(msg)], &None).unwrap()
}

#[test]
fn execute_creates_and_pushes_tag() {
    let config = ReleaseConfig::default();
    let plan = make_plan(None, "feat: something", &config);
    let mut fake = Fake::default();
    run(&mut fake, &plan, &config, true).unwrap();
    assert_eq!(fake.created_tags, vec!["v0.1.0"]);
    assert_eq!(fake.pushed_tags, vec!["v0.1.0"]);
}

#[test]
fn execute_calls_vcs_create_release() {
    let config = ReleaseConfig::default();
    let plan = make_plan(None, "feat: something", &config);
    let mut fake = Fake::default();
    run(&mut fake, &plan, &config, true).unwrap();
    assert_eq!(fake.releases.len(), 1);
    assert_eq!(fake.releases[0].0, "v0.1.0");
    assert!(!fake.releases[0].1.is_empty());
}

#[test]
fn execute_commits_changelog_before_tag() {
    let mut config = ReleaseConfig::default();
    config.changelog.file = Some("CHANGELOG.md".into());
    let plan = make_plan(None, "feat: something", &config);
    let mut fake = Fake::default();
    run(&mut fake, &plan, &config, true).unwrap();
    assert_eq!(fake.committed.len(), 1);
    assert_eq!(fake.committed[0].0, vec!["CHANGELOG.md".to_string()]);
    assert!(fake.committed[0].1.contains("chore(release): v0.1.0"));
    assert_eq!(fake.created_tags, vec!["v0.1.0"]);
}

#[test]
fn execute_skips_existing_tag() {
    let config = ReleaseConfig::default();
    let plan = make_plan(None, "feat: something", &config);
    let mut fake = Fake::default();
    fake.created_tags.push("v0.1.0".into());
    run(&mut fake, &plan, &config, true).unwrap();
    assert_eq!(fake.created_tags.len(), 1);
}

#[test]
fn execute_skips_existing_release() {
    let config = ReleaseConfig::default();
    let plan = make_plan(None, "feat: something", &config);
    let mut fake = Fake::default();
    fake.releases.push(("v0.1.0".into(), "old notes".into()));
    run(&mut fake, &plan, &config, true).unwrap();
    assert_eq!(fake.deleted_releases, vec!["v0.1.0"]);
    assert_eq!(fake.releases.len(), 1);
    assert_eq!(fake.releases[0].0, "v0.1.0");
    assert_ne!(fake.releases[0].1, "old notes");
}

#[test]
fn execute_idempotent_rerun() {
    let config = ReleaseConfig::default();
    let plan = make_plan(None, "feat: something", &config);
    let mut fake = Fake::default();
    run(&mut fake, &plan, &config, true).unwrap();
    run(&mut fake, &plan, &config, true).unwrap();
    assert_eq!(fake.created_tags.len(), 1);
    assert_eq!(fake.pushed_tags.len(), 1);
    assert_eq!(fake.push_count, 2);
    assert_eq!(fake.deleted_releases, vec!["v0.1.0"]);
    assert_eq!(fake.releases.len(), 1);
    assert_eq!(fake.releases[0].0, "v0.1.0");
}

#[test]
fn execute_bumps_version_files() {
    let mut config = ReleaseConfig::default();
    config.version_files = vec!["dir/Cargo.toml".into()];
    let plan = make_plan(None, "feat: something", &config);
    let mut fake = Fake::default();
    run(&mut fake, &plan, &config, true).unwrap();
    assert_eq!(fake.bumped, vec!["dir/Cargo.toml"]);
    assert_eq!(fake.committed.len(), 1);
    assert!(fake.committed[0].0.contains(&"dir/Cargo.toml".to_string()));
}

#[test]
fn execute_stages_changelog_and_version_files_together() {
    let mut config = ReleaseConfig::default();
    config.changelog.file = Some("CHANGELOG.md".into());
    config.version_files = vec!["Cargo.toml".into()];
    let plan = make_plan(None, "feat: something", &config);
    let mut fake = Fake::default();
    run(&mut fake, &plan, &config, true).unwrap();
    assert_eq!(fake.committed.len(), 1);
    assert_eq!(
        fake.committed[0].0,
        vec!["CHANGELOG.md".to_string(), "Cargo.toml".to_string()]
    );
}

#[test]
fn execute_lenient_skips_failed_version_file() {
    let mut config = ReleaseConfig::default();
    config.version_files = vec!["notes.txt".into()];
    let plan = make_plan(None, "feat: something", &config);
    let mut fake = Fake::default();
    run(&mut fake, &plan, &config, true).unwrap();
    assert!(fake.committed.is_empty());
    assert_eq!(fake.created_tags, vec!["v0.1.0"]);
    config.version_files_strict = true;
    let mut strict = Fake::default();
    let err = run(&mut strict, &plan, &config, true).unwrap_err();
    assert!(matches!(err, ReleaseError::VersionBump(_)));
    assert!(strict.created_tags.is_empty());
}

#[test]
fn execute_uploads_artifacts() {
    let mut config = ReleaseConfig::default();
    config.artifacts = vec!["*.tar.gz".into(), "*.zip".into()];
    let plan = make_plan(None, "feat: something", &config);
    let mut fake = Fake::default();
    fake.artifact_matches = vec!["d/app.zip".into(), "d/app.tar.gz".into(), "d/app.zip".into()];
    run(&mut fake, &plan, &config, true).unwrap();
    assert_eq!(fake.uploaded_assets.len(), 1);
    assert_eq!(fake.uploaded_assets[0].0, "v0.1.0");
    assert_eq!(fake.uploaded_assets[0].1, vec!["d/app.tar.gz", "d/app.zip"]);
}

#[test]
fn execute_no_artifacts_skips_upload() {
    let config = ReleaseConfig::default();
    let plan = make_plan(None, "feat: something", &config);
    let mut fake = Fake::default();
    run(&mut fake, &plan, &config, true).unwrap();
    assert!(fake.uploaded_assets.is_empty());
}

#[test]
fn execute_floating_tags_force_create_and_push() {
    let mut config = ReleaseConfig::default();
    config.floating_tags = true;
    let tag = TagInfo {
        name: "v1.2.3".into(),
        version: Version::new(1, 2, 3),
        sha: "f".repeat(40),
    };
    let plan = make_plan(Some(tag), "fix: a bug", &config);
    assert_eq!(plan.floating_tag_name.as_deref(), Some("v1"));
    let mut fake = Fake::default();
    run(&mut fake, &plan, &config, true).unwrap();
    assert_eq!(fake.force_created_tags, vec!["v1"]);
    assert_eq!(fake.force_pushed_tags, vec!["v1"]);
}

#[test]
fn execute_no_floating_tags_when_disabled() {
    let config = ReleaseConfig::default();
    let plan = make_plan(None, "feat: something", &config);
    assert!(plan.floating_tag_name.is_none());
    let mut fake = Fake::default();
    run(&mut fake, &plan, &config, true).unwrap();
    assert!(fake.force_created_tags.is_empty());
    assert!(fake.force_pushed_tags.is_empty());
}

#[test]
fn execute_floating_tags_idempotent() {
    let mut config = ReleaseConfig::default();
    config.floating_tags = true;
    let plan = make_plan(None, "feat: something", &config);
    assert_eq!(plan.floating_tag_name.as_deref(), Some("v0"));
    let mut fake = Fake::default();
    run(&mut fake, &plan, &config, true).unwrap();
    run(&mut fake, &plan, &config, true).unwrap();
    assert_eq!(fake.force_created_tags.len(), 2);
    assert_eq!(fake.force_pushed_tags.len(), 2);
    assert_eq!(fake.created_tags.len(), 1);
    assert_eq!(fake.pushed_tags.len(), 1);
}

#[test]
fn execute_runs_build_command_after_version_bump() {
    let mut config = ReleaseConfig::default();
    config.build_command = Some("make dist".into());
    let plan = make_plan(None, "feat: something", &config);
    let mut fake = Fake::default();
    run(&mut fake, &plan, &config, true).unwrap();
    assert_eq!(fake.builds, vec![("make dist".to_string(), "0.1.0".to_string())]);
}

#[test]
fn execute_build_command_failure_aborts_release() {
    let mut config = ReleaseConfig::default();
    config.build_command = Some("exit 1".into());
    let plan = make_plan(None, "feat: something", &config);
    let mut fake = Fake::default();
    let result = run(&mut fake, &plan, &config, true);
    assert!(result.is_err());
    assert!(fake.created_tags.is_empty());
}

#[test]
fn execute_without_release_host_skips_release_steps() {
    let mut config = ReleaseConfig::default();
    config.artifacts = vec!["*.zip".into()];
    let plan = make_plan(None, "feat: something", &config);
    let mut fake = Fake::default();
    fake.artifact_matches = vec!["a.zip".into()];
    run(&mut fake, &plan, &config, false).unwrap();
    assert!(fake.releases.is_empty());
    assert!(fake.uploaded_assets.is_empty());
    assert_eq!(fake.pushed_tags, vec!["v0.1.0"]);
}

#[test]
fn resolve_artifact_globs_deduplicates() {
    let files = vec!["d/file.txt".to_string(), "d/file.txt".to_string()];
    assert_eq!(sr_core::execute::sorted_unique_exec(&files), vec!["d/file.txt"]);
}
