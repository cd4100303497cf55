use vstd::prelude::*;

verus! {

/// What can go wrong while planning or carrying out a release.
#[derive(Debug, Clone)]
pub enum ReleaseError {
    /// Nothing new since the reference tag.
    NoCommits { tag: String, sha: String },
    /// Commits exist, but none of them warrants a release.
    NoBump { tag: String, commit_count: usize },
    /// Malformed configuration or commit data.
    Config(String),
    /// The source-control collaborator failed.
    Git(String),
    /// The release host failed.
    Vcs(String),
    /// A lifecycle hook failed.
    Hook { command: String },
    /// Writing the changelog file failed.
    Changelog(String),
    /// A version file is unsupported, or holds no version field.
    VersionBump(String),
    /// The build command failed to start or exited with a failure.
    BuildCommand(String),
}

impl ReleaseError {
    /// The description of the error: a fixed text for its kind followed by its details.
    pub open spec fn message_text(&self) -> Seq<char> {
        match self {
            ReleaseError::NoCommits { tag, sha } => "no commits found since tag "@ + tag@ + " ("@
                + sha@ + ")"@,
            ReleaseError::NoBump { tag, commit_count } => "no releasable commits found in "@
                + crate::text::decimal(*commit_count as nat) + " commit(s) since tag "@ + tag@,
            ReleaseError::Config(m) => "configuration error: "@ + m@,
            ReleaseError::Git(m) => "git error: "@ + m@,
            ReleaseError::Vcs(m) => "vcs provider error: "@ + m@,
            ReleaseError::Hook { command } => "hook failed: "@ + command@,
            ReleaseError::Changelog(m) => "changelog error: "@ + m@,
            ReleaseError::VersionBump(m) => "version file error: "@ + m@,
            ReleaseError::BuildCommand(m) => "build command failed: "@ + m@,
        }
    }

    /// A one-line human readable description of the error.
    pub fn message(&self) -> (r: String)
        ensures
            r@ == self.message_text(),
    {
        let mut s = String::new();
        match self {
            ReleaseError::NoCommits { tag, sha } => {
                crate::text::push_str(&mut s, "no commits found since tag ");
                crate::text::push_str(&mut s, tag.as_str());
                crate::text::push_str(&mut s, " (");
                crate::text::push_str(&mut s, sha.as_str());
                crate::text::push_str(&mut s, ")");
            },
            ReleaseError::NoBump { tag, commit_count } => {
                crate::text::push_str(&mut s, "no releasable commits found in ");
                let n = crate::text::decimal_text(*commit_count as u64);
                crate::text::push_str(&mut s, n.as_str());
                crate::text::push_str(&mut s, " commit(s) since tag ");
                crate::text::push_str(&mut s, tag.as_str());
            },
            ReleaseError::Config(m) => {
                crate::text::push_str(&mut s, "configuration error: ");
                crate::text::push_str(&mut s, m.as_str());
            },
            ReleaseError::Git(m) => {
                crate::text::push_str(&mut s, "git error: ");
                crate::text::push_str(&mut s, m.as_str());
            },
            ReleaseError::Vcs(m) => {
                crate::text::push_str(&mut s, "vcs provider error: ");
                crate::text::push_str(&mut s, m.as_str());
            },
            ReleaseError::Hook { command } => {
                crate::text::push_str(&mut s, "hook failed: ");
                crate::text::push_str(&mut s, command.as_str());
            },
            ReleaseError::Changelog(m) => {
                crate::text::push_str(&mut s, "changelog error: ");
                crate::text::push_str(&mut s, m.as_str());
            },
            ReleaseError::VersionBump(m) => {
                crate::text::push_str(&mut s, "version file error: ");
                crate::text::push_str(&mut s, m.as_str());
            },
            ReleaseError::BuildCommand(m) => {
                crate::text::push_str(&mut s, "build command failed: ");
                crate::text::push_str(&mut s, m.as_str());
            },
        }
        assert(s@ =~= self.message_text());
        s
    }
}

} // verus!
