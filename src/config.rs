use vstd::prelude::*;

use crate::commit::{CommitType, DEFAULT_COMMIT_PATTERN, default_commit_types, default_types_spec};
use crate::text::copy_str;

verus! {

/// Release configuration, as consumed by planning and execution.
#[derive(Debug, Clone)]
pub struct ReleaseConfig {
    pub branches: Vec<String>,
    pub tag_prefix: String,
    pub commit_pattern: String,
    pub breaking_section: String,
    pub misc_section: String,
    pub types: Vec<CommitType>,
    pub changelog: ChangelogConfig,
    pub version_files: Vec<String>,
    /// A version file that cannot be bumped aborts the release when set; it is skipped otherwise.
    pub version_files_strict: bool,
    /// Glob patterns of files to upload to the release.
    pub artifacts: Vec<String>,
    /// Whether to maintain a major-version tag such as `v3`.
    pub floating_tags: bool,
    /// Shell command run after the version bump, before committing.
    pub build_command: Option<String>,
}

/// Where the changelog is written, and an optional template.
#[derive(Debug, Clone)]
pub struct ChangelogConfig {
    pub file: Option<String>,
    pub template: Option<String>,
}

impl ChangelogConfig {
    /// No changelog file and no template.
    pub fn default() -> (r: ChangelogConfig)
        ensures
            r.file is None,
            r.template is None,
    {
        ChangelogConfig { file: None, template: None }
    }
}

impl ReleaseConfig {
    /// The default configuration.
    pub fn default() -> (r: ReleaseConfig)
        ensures
            r.branches@.len() == 2,
            r.branches@[0]@ == "main"@,
            r.branches@[1]@ == "master"@,
            r.tag_prefix@ == "v"@,
            r.commit_pattern@ == DEFAULT_COMMIT_PATTERN@,
            r.breaking_section@ == "Breaking Changes"@,
            r.misc_section@ == "Miscellaneous"@,
            default_types_spec(r.types@),
            r.changelog.file is None,
            r.changelog.template is None,
            r.version_files@.len() == 0,
            !r.version_files_strict,
            r.artifacts@.len() == 0,
            !r.floating_tags,
            r.build_command is None,
    {
        let mut branches: Vec<String> = Vec::new();
        branches.push(copy_str("main"));
        branches.push(copy_str("master"));
        ReleaseConfig {
            branches,
            tag_prefix: copy_str("v"),
            commit_pattern: copy_str(DEFAULT_COMMIT_PATTERN),
            breaking_section: copy_str("Breaking Changes"),
            misc_section: copy_str("Miscellaneous"),
            types: default_commit_types(),
            changelog: ChangelogConfig::default(),
            version_files: Vec::new(),
            version_files_strict: false,
            artifacts: Vec::new(),
            floating_tags: false,
            build_command: None,
        }
    }
}

} // verus!
