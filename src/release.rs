use vstd::prelude::*;

use crate::commit::{
    Commit, ConventionalCommit, DefaultCommitClassifier, DefaultCommitParser, has_bang,
    is_conventional, level_for, opt_text, parsed_body, parsed_description, parsed_scope,
    parsed_type,
};
use crate::changelog::{ChangelogEntry, DefaultChangelogFormatter, trim_end};
use crate::config::ReleaseConfig;
use crate::version_files::{FileKind, file_name_of, is_supported_version_file, kind_of};
use crate::error::ReleaseError;
use crate::text::{copy_str, decimal, decimal_text, push_str};
use crate::version::{
    BumpLevel, Version, apply_bump, bump_numbers, can_bump_numbers, determine_bump, join,
    max_bump, max_bump_prefix, numbers,
};

verus! {

/// Information about a release tag.
#[derive(Debug)]
pub struct TagInfo {
    pub name: String,
    pub version: Version,
    pub sha: String,
}

/// The computed plan for a release, before execution.
#[derive(Debug)]
pub struct ReleasePlan {
    pub current_version: Option<Version>,
    pub next_version: Version,
    pub bump: BumpLevel,
    pub commits: Vec<ConventionalCommit>,
    pub tag_name: String,
    pub floating_tag_name: Option<String>,
}

/// Source-control operations that planning and execution rely on.
pub trait GitRepository {
    /// The latest tag matching `prefix` whose rest is a version.
    fn latest_tag(&self, prefix: &str) -> Result<Option<TagInfo>, ReleaseError>;

    /// Commits after `from` (exclusive) up to HEAD (inclusive); all of HEAD's history when
    /// `from` is `None`.
    fn commits_since(&self, from: Option<&str>) -> Result<Vec<Commit>, ReleaseError>;

    /// Create an annotated tag at HEAD.
    fn create_tag(&self, name: &str, message: &str) -> Result<(), ReleaseError>;

    /// Push a tag to the remote.
    fn push_tag(&self, name: &str) -> Result<(), ReleaseError>;

    /// Stage the paths and commit them; `Ok(false)` when there was nothing to commit.
    fn stage_and_commit(&self, paths: &[String], message: &str) -> Result<bool, ReleaseError>;

    /// Push the current branch.
    fn push(&self) -> Result<(), ReleaseError>;

    /// Whether a tag exists locally.
    fn tag_exists(&self, name: &str) -> Result<bool, ReleaseError>;

    /// Whether a tag exists on the remote.
    fn remote_tag_exists(&self, name: &str) -> Result<bool, ReleaseError>;

    /// Every tag matching `prefix` whose rest is a version, in ascending version order.
    fn all_tags(&self, prefix: &str) -> Result<Vec<TagInfo>, ReleaseError>;

    /// Commits after `from` (exclusive) up to `to` (inclusive).
    fn commits_between(&self, from: Option<&str>, to: &str) -> Result<Vec<Commit>, ReleaseError>;

    /// The date (`YYYY-MM-DD`) of the commit that a tag points to.
    fn tag_date(&self, name: &str) -> Result<String, ReleaseError>;

    /// Create or move an annotated tag to HEAD.
    fn force_create_tag(&self, name: &str, message: &str) -> Result<(), ReleaseError>;

    /// Push a tag, replacing it on the remote.
    fn force_push_tag(&self, name: &str) -> Result<(), ReleaseError>;

    /// The commit id of HEAD.
    fn head_sha(&self) -> Result<String, ReleaseError>;
}

/// Operations of the remote release host.
pub trait VcsProvider {
    /// Create a release; returns its URL.
    fn create_release(&self, tag: &str, name: &str, body: &str, prerelease: bool) -> Result<String, ReleaseError>;

    /// A URL comparing two refs.
    fn compare_url(&self, base: &str, head: &str) -> Result<String, ReleaseError>;

    /// Whether a release exists for the tag.
    fn release_exists(&self, tag: &str) -> Result<bool, ReleaseError>;

    /// Delete the release of the tag.
    fn delete_release(&self, tag: &str) -> Result<(), ReleaseError>;

    /// The base URL of the repository, if known.
    fn repo_url(&self) -> Option<String>;

    /// Upload files to the release of the tag.
    fn upload_assets(&self, tag: &str, files: &[String]) -> Result<(), ReleaseError>;
}

/// `p` is what the parser makes of `c`.
pub open spec fn parse_matches(c: Commit, p: ConventionalCommit) -> bool {
    let m = c.message@;
    &&& p.sha@ == c.sha@
    &&& p.commit_type@ == parsed_type(m)
    &&& opt_text(p.scope) == parsed_scope(m)
    &&& p.breaking == has_bang(m)
    &&& p.description@ == parsed_description(m)
    &&& opt_text(p.body) == parsed_body(m)
    &&& p.author is None
}

/// `out` holds the parsed forms of the conventional ones among the first `n` raw commits, in
/// order; the others are dropped.
pub open spec fn parsed_prefix(raw: Seq<Commit>, n: int, out: Seq<ConventionalCommit>) -> bool
    decreases n,
{
    if n <= 0 {
        out.len() == 0
    } else if is_conventional(raw[n - 1].message@) {
        out.len() > 0 && parse_matches(raw[n - 1], out.last()) && parsed_prefix(
            raw,
            n - 1,
            out.drop_last(),
        )
    } else {
        parsed_prefix(raw, n - 1, out)
    }
}

/// The level that raw commit `c` implies: none when it does not parse.
pub open spec fn raw_level(types: Seq<crate::commit::CommitType>, c: Commit) -> Option<BumpLevel> {
    if is_conventional(c.message@) {
        level_for(types, parsed_type(c.message@), has_bang(c.message@))
    } else {
        None
    }
}

/// The highest level that the first `n` raw commits imply.
pub open spec fn raw_bump(raw: Seq<Commit>, types: Seq<crate::commit::CommitType>, n: int) -> Option<BumpLevel>
    decreases n,
{
    if n <= 0 {
        None
    } else {
        join(raw_bump(raw, types, n - 1), raw_level(types, raw[n - 1]))
    }
}

/// The numbers planning starts from: the tag's version, or `0.0.0` when there is no tag.
pub open spec fn base_numbers(tag: Option<TagInfo>) -> (u64, u64, u64) {
    match tag {
        Some(t) => numbers(t.version),
        None => (0, 0, 0),
    }
}

/// The floating tag name for major version `major`, when floating tags are enabled.
pub open spec fn floating_for(config: ReleaseConfig, major: u64) -> Option<Seq<char>> {
    if config.floating_tags {
        Some(config.tag_prefix@ + decimal(major as nat))
    } else {
        None
    }
}

/// Forced re-release applies: no new commits, a tag exists, and HEAD is the tag's commit.
pub open spec fn rerelease_applies(force: bool, tag: Option<TagInfo>, raw: Seq<Commit>, head: Option<String>) -> bool {
    force && raw.len() == 0 && tag is Some && head is Some && head->0@ == tag->0.sha@
}

proof fn lemma_max_bump_prefix_push(out: Seq<ConventionalCommit>, types: Seq<crate::commit::CommitType>, k: int)
    requires
        0 <= k < out.len(),
    ensures
        max_bump_prefix(out, types, k) == max_bump_prefix(out.drop_last(), types, k),
    decreases k,
{
    if k > 0 {
        lemma_max_bump_prefix_push(out, types, k - 1);
    }
}

/// The bump of the parsed commits is the bump of the raw ones.
proof fn lemma_parsed_bump(raw: Seq<Commit>, types: Seq<crate::commit::CommitType>, n: int, out: Seq<ConventionalCommit>)
    requires
        0 <= n <= raw.len(),
        parsed_prefix(raw, n, out),
    ensures
        max_bump(out, types) == raw_bump(raw, types, n),
    decreases n,
{
    if n > 0 {
        if is_conventional(raw[n - 1].message@) {
            lemma_parsed_bump(raw, types, n - 1, out.drop_last());
            lemma_max_bump_prefix_push(out, types, out.len() - 1);
        } else {
            lemma_parsed_bump(raw, types, n - 1, out);
        }
    }
}

/// The conventional commits among `raw`, parsed, in order.
pub fn parse_commits(raw: &Vec<Commit>) -> (r: Vec<ConventionalCommit>)
    ensures
        parsed_prefix(raw@, raw@.len() as int, r@),
{
    let parser = DefaultCommitParser;
    let mut out: Vec<ConventionalCommit> = Vec::new();
    let mut i: usize = 0;
    while i < raw.len()
        invariant
            i <= raw@.len(),
            parsed_prefix(raw@, i as int, out@),
        decreases raw.len() - i,
    {
        match parser.parse(&raw[i]) {
            Ok(c) => {
                let ghost prev = out@;
                out.push(c);
                assert(out@.drop_last() =~= prev);
            },
            Err(_) => {},
        }
        i = i + 1;
    }
    out
}

/// A copy of a rule table.
pub fn copy_types(v: &Vec<crate::commit::CommitType>) -> (r: Vec<crate::commit::CommitType>)
    ensures
        r@ == v@,
{
    let mut out: Vec<crate::commit::CommitType> = Vec::new();
    let mut i: usize = 0;
    while i < v.len()
        invariant
            i <= v@.len(),
            out@ == v@.subrange(0, i as int),
        decreases v.len() - i,
    {
        out.push(v[i].duplicate());
        assert(out@ =~= v@.subrange(0, i + 1));
        i = i + 1;
    }
    assert(v@.subrange(0, v@.len() as int) =~= v@);
    out
}

fn none_text() -> (r: String)
    ensures
        r@ == "(none)"@,
{
    copy_str("(none)")
}

fn floating_name(config: &ReleaseConfig, major: u64) -> (r: Option<String>)
    ensures
        opt_text(r) == floating_for(*config, major),
{
    if config.floating_tags {
        let mut s = copy_str(config.tag_prefix.as_str());
        let d = decimal_text(major);
        push_str(&mut s, d.as_str());
        Some(s)
    } else {
        None
    }
}

/// Plans a release from the latest matching tag, the raw commits since it, and HEAD's commit
/// id (consulted only for a forced re-release).
pub fn plan_from(
    config: &ReleaseConfig,
    force: bool,
    tag: &Option<TagInfo>,
    raw: &Vec<Commit>,
    head: &Option<String>,
) -> (r: Result<ReleasePlan, ReleaseError>)
    ensures
        raw@.len() == 0 && rerelease_applies(force, *tag, raw@, *head) ==> (r matches Ok(p) && {
            let t = tag->0;
            &&& p.commits@.len() == 0
            &&& p.next_version.same_as(t.version)
            &&& (p.current_version matches Some(c) && c.same_as(t.version))
            &&& p.tag_name@ == t.name@
            &&& p.bump == BumpLevel::Patch
            &&& opt_text(p.floating_tag_name) == floating_for(*config, t.version.major)
        }),
        raw@.len() == 0 && !rerelease_applies(force, *tag, raw@, *head) ==> (r matches Err(e) && e is NoCommits),
        raw@.len() > 0 ==> match raw_bump(raw@, config.types@, raw@.len() as int) {
            None => (r matches Err(e) && e is NoBump),
            Some(level) => if !can_bump_numbers(base_numbers(*tag), level) {
                (r matches Err(e) && e is Config)
            } else {
                (r matches Ok(p) && {
                    &&& parsed_prefix(raw@, raw@.len() as int, p.commits@)
                    &&& p.bump == level
                    &&& numbers(p.next_version) == bump_numbers(base_numbers(*tag), level)
                    &&& p.next_version.pre@.len() == 0
                    &&& p.next_version.build@.len() == 0
                    &&& p.tag_name@ == config.tag_prefix@ + p.next_version.text()
                    &&& opt_text(p.floating_tag_name) == floating_for(*config, p.next_version.major)
                    &&& match (p.current_version, *tag) {
                        (Some(c), Some(t)) => c.same_as(t.version),
                        (None, None) => true,
                        _ => false,
                    }
                })
            },
        },
{
    if raw.len() == 0 {
        match (tag, head) {
            (Some(info), Some(h)) => {
                if force && *h == info.sha {
                    let floating = floating_name(config, info.version.major);
                    return Ok(ReleasePlan {
                        current_version: Some(info.version.duplicate()),
                        next_version: info.version.duplicate(),
                        bump: BumpLevel::Patch,
                        commits: Vec::new(),
                        tag_name: info.name.clone(),
                        floating_tag_name: floating,
                    });
                }
            },
            _ => {},
        }
        return match tag {
            Some(info) => Err(ReleaseError::NoCommits { tag: info.name.clone(), sha: info.sha.clone() }),
            None => Err(ReleaseError::NoCommits { tag: none_text(), sha: none_text() }),
        };
    }
    let commits = parse_commits(raw);
    proof {
        lemma_parsed_bump(raw@, config.types@, raw@.len() as int, commits@);
    }
    let classifier = DefaultCommitClassifier::new(copy_types(&config.types), config.commit_pattern.clone());
    let bump = match determine_bump(commits.as_slice(), &classifier) {
        Some(b) => b,
        None => {
            let name = match tag {
                Some(info) => info.name.clone(),
                None => none_text(),
            };
            return Err(ReleaseError::NoBump { tag: name, commit_count: commits.len() });
        },
    };
    let base = match tag {
        Some(info) => info.version.duplicate(),
        None => Version::new(0, 0, 0),
    };
    let fits = match bump {
        BumpLevel::Major => base.major < u64::MAX,
        BumpLevel::Minor => base.minor < u64::MAX,
        BumpLevel::Patch => base.patch < u64::MAX,
    };
    if !fits {
        let mut msg = copy_str("version number overflow in ");
        let current = base.to_text();
        push_str(&mut msg, current.as_str());
        return Err(ReleaseError::Config(msg));
    }
    let next = apply_bump(&base, bump);
    let mut tag_name = copy_str(config.tag_prefix.as_str());
    let text = next.to_text();
    push_str(&mut tag_name, text.as_str());
    let floating = floating_name(config, next.major);
    let current = match tag {
        Some(info) => Some(info.version.duplicate()),
        None => None,
    };
    Ok(ReleasePlan {
        current_version: current,
        next_version: next,
        bump,
        commits,
        tag_name,
        floating_tag_name: floating,
    })
}

} // verus!

verus! {

/// The trunk-based release flow over a source-control repository and an optional release host.
pub struct TrunkReleaseStrategy<G, V> {
    pub git: G,
    pub vcs: Option<V>,
    pub config: ReleaseConfig,
    /// When set, re-release the current tag if HEAD is at the latest tag.
    pub force: bool,
}

impl<G: GitRepository, V: VcsProvider> TrunkReleaseStrategy<G, V> {
    /// Plans the release from what the repository reports (see `plan_from`).
    pub fn plan(&self) -> (r: Result<ReleasePlan, ReleaseError>)
        ensures
            r matches Ok(p) ==> {
                ||| (p.commits@.len() == 0 && self.force && (p.current_version matches Some(c)
                    && c.same_as(p.next_version)))
                ||| (p.commits@.len() > 0 && max_bump(p.commits@, self.config.types@) == Some(p.bump)
                    && p.tag_name@ == self.config.tag_prefix@ + p.next_version.text()
                    && numbers(p.next_version) == bump_numbers(
                    match p.current_version {
                        Some(c) => numbers(c),
                        None => (0, 0, 0),
                    },
                    p.bump,
                ))
            },
    {
        let tag = self.git.latest_tag(self.config.tag_prefix.as_str())?;
        let raw = match &tag {
            Some(info) => self.git.commits_since(Some(info.sha.as_str()))?,
            None => self.git.commits_since(None)?,
        };
        let head = if raw.len() == 0 && self.force && tag.is_some() {
            Some(self.git.head_sha()?)
        } else {
            None
        };
        let r = plan_from(&self.config, self.force, &tag, &raw, &head);
        proof {
            if r is Ok && raw@.len() > 0 {
                let p = r->Ok_0;
                lemma_parsed_bump(raw@, self.config.types@, raw@.len() as int, p.commits@);
                lemma_parsed_nonempty(raw@, raw@.len() as int, p.commits@, self.config.types@);
            }
        }
        r
    }
}

proof fn lemma_parsed_nonempty(raw: Seq<Commit>, n: int, out: Seq<ConventionalCommit>, types: Seq<crate::commit::CommitType>)
    requires
        0 <= n <= raw.len(),
        parsed_prefix(raw, n, out),
        raw_bump(raw, types, n) is Some,
    ensures
        out.len() > 0,
    decreases n,
{
    if n > 0 && !is_conventional(raw[n - 1].message@) {
        lemma_parsed_nonempty(raw, n - 1, out, types);
    }
}

} // verus!

verus! {

/// A copy of a list of commits.
pub fn copy_commits(v: &Vec<ConventionalCommit>) -> (r: Vec<ConventionalCommit>)
    ensures
        r@ == v@,
{
    let mut out: Vec<ConventionalCommit> = Vec::new();
    let mut i: usize = 0;
    while i < v.len()
        invariant
            i <= v@.len(),
            out@ == v@.subrange(0, i as int),
        decreases v.len() - i,
    {
        out.push(v[i].duplicate());
        assert(out@ =~= v@.subrange(0, i + 1));
        i = i + 1;
    }
    assert(v@.subrange(0, v@.len() as int) =~= v@);
    out
}

/// The formatter that the configuration describes.
pub open spec fn formatter_of(config: ReleaseConfig) -> DefaultChangelogFormatter {
    DefaultChangelogFormatter {
        template: None,
        types: config.types,
        breaking_section: config.breaking_section,
        misc_section: config.misc_section,
    }
}

/// The release notes of `plan`: its changelog entry dated `date`, with commit links to
/// `repo_url` when it is known.
pub fn release_notes(config: &ReleaseConfig, plan: &ReleasePlan, date: &str, repo_url: Option<String>) -> (r: Result<String, ReleaseError>)
    ensures
        r matches Ok(s) && exists|e: ChangelogEntry|
            e.version@ == plan.next_version.text() && e.date@ == date@ && e.commits@ == plan.commits@
                && opt_text(e.repo_url) == opt_text(repo_url) && e.compare_url is None
                && e.contributor_map@.len() == 0 && s@ == trim_end(
                formatter_of(*config).entries_text(seq![e], 1),
            ),
{
    let f = DefaultChangelogFormatter::new(
        None,
        copy_types(&config.types),
        config.breaking_section.clone(),
        config.misc_section.clone(),
    );
    let entry = ChangelogEntry {
        version: plan.next_version.to_text(),
        date: copy_str(date),
        commits: copy_commits(&plan.commits),
        compare_url: None,
        repo_url,
        contributor_map: Vec::new(),
    };
    let mut entries: Vec<ChangelogEntry> = Vec::new();
    entries.push(entry);
    let r = f.format(entries.as_slice());
    proof {
        let e = entries@[0];
        assert(entries@ =~= seq![e]);
        let g = formatter_of(*config);
        assert(f.types@ == g.types@);
        assert(f.breaking_section@ == g.breaking_section@);
        assert(f.misc_section@ == g.misc_section@);
        assert(f.entry_text(e) == g.entry_text(e));
        assert(f.entries_text(seq![e], 1) == f.entries_text(seq![e], 0) + f.entry_text(e));
        assert(g.entries_text(seq![e], 1) == g.entries_text(seq![e], 0) + g.entry_text(e));
    }
    r
}

/// Index of the first path among `files` that names no supported version file, or
/// `files.len()`.
pub open spec fn first_unsupported(files: Seq<String>, i: int) -> int
    decreases files.len() - i,
{
    if i < 0 || i >= files.len() {
        files.len() as int
    } else if kind_of(file_name_of(files[i]@)) == FileKind::Unsupported {
        i
    } else {
        first_unsupported(files, i + 1)
    }
}

/// The check a dry run makes: in strict mode, every configured version file must be supported.
pub fn check_version_files(config: &ReleaseConfig) -> (r: Result<(), ReleaseError>)
    ensures
        r is Err <==> config.version_files_strict && first_unsupported(config.version_files@, 0)
            < config.version_files@.len(),
        r matches Err(e) ==> e is VersionBump,
{
    let mut i: usize = 0;
    while i < config.version_files.len()
        invariant
            i <= config.version_files@.len(),
            first_unsupported(config.version_files@, i as int) == first_unsupported(config.version_files@, 0),
        decreases config.version_files.len() - i,
    {
        if !is_supported_version_file(config.version_files[i].as_str()) {
            if config.version_files_strict {
                let mut msg = copy_str("unsupported version file: ");
                push_str(&mut msg, config.version_files[i].as_str());
                return Err(ReleaseError::VersionBump(msg));
            }
            proof {
                lemma_first_unsupported_bound(config.version_files@, 0);
            }
            return Ok(());
        }
        i = i + 1;
    }
    Ok(())
}

proof fn lemma_first_unsupported_bound(files: Seq<String>, i: int)
    requires
        0 <= i,
    ensures
        first_unsupported(files, i) <= files.len(),
    decreases files.len() - i,
{
    if i < files.len() && kind_of(file_name_of(files[i]@)) != FileKind::Unsupported {
        lemma_first_unsupported_bound(files, i + 1);
    }
}

impl<G: GitRepository, V: VcsProvider> TrunkReleaseStrategy<G, V> {
    /// The release notes of `plan` dated `date`, linked to the release host's repository URL.
    pub fn format_changelog(&self, plan: &ReleasePlan, date: &str) -> (r: Result<String, ReleaseError>)
        ensures
            r matches Ok(s) && exists|e: ChangelogEntry|
                e.version@ == plan.next_version.text() && e.date@ == date@ && e.commits@
                    == plan.commits@ && e.compare_url is None && e.contributor_map@.len() == 0
                    && (self.vcs is None ==> e.repo_url is None) && s@ == trim_end(
                    formatter_of(self.config).entries_text(seq![e], 1),
                ),
    {
        let repo = match &self.vcs {
            Some(v) => v.repo_url(),
            None => None,
        };
        release_notes(&self.config, plan, date, repo)
    }
}

} // verus!

verus! {

proof fn lemma_raw_bump_none(raw: Seq<Commit>, types: Seq<crate::commit::CommitType>, n: int)
    requires
        0 <= n <= raw.len(),
    ensures
        raw_bump(raw, types, n) is None <==> forall|i: int|
            0 <= i < n ==> #[trigger] raw_level(types, raw[i]) is None,
    decreases n,
{
    if n > 0 {
        lemma_raw_bump_none(raw, types, n - 1);
    }
}

/// Planning finds no release warranted exactly when every raw commit either does not parse as
/// a conventional commit, or parses as a non-breaking commit whose type is unknown or
/// configured with no bump.
pub proof fn lemma_no_release_iff_nothing_releasable(raw: Seq<Commit>, types: Seq<crate::commit::CommitType>)
    ensures
        raw_bump(raw, types, raw.len() as int) is None <==> forall|i: int|
            0 <= i < raw.len() ==> !is_conventional((#[trigger] raw[i]).message@) || (!has_bang(
                raw[i].message@,
            ) && level_for(types, parsed_type(raw[i].message@), false) is None),
{
    lemma_raw_bump_none(raw, types, raw.len() as int);
    assert forall|i: int| 0 <= i < raw.len() implies (raw_level(types, raw[i]) is None <==> (
    !is_conventional(raw[i].message@) || (!has_bang(raw[i].message@) && level_for(
        types,
        parsed_type(raw[i].message@),
        false,
    ) is None))) by {}
}

} // verus!
