use vstd::prelude::*;

use crate::commit::{ConventionalCommit, CommitType, DefaultCommitClassifier, in_table, level_for, rule_index};
use crate::text::{decimal, push_str};

verus! {

/// The kind of version bump to apply; `Major > Minor > Patch`.
#[derive(Debug, Clone, Copy, PartialEq, Eq, Structural, PartialOrd, Ord)]
pub enum BumpLevel {
    Patch,
    Minor,
    Major,
}

impl BumpLevel {
    /// Position in the order `Patch < Minor < Major`.
    pub open spec fn rank(self) -> nat {
        match self {
            BumpLevel::Patch => 0,
            BumpLevel::Minor => 1,
            BumpLevel::Major => 2,
        }
    }

    /// The lower-case name of the level: `patch`, `minor` or `major`.
    pub fn name(&self) -> (r: &'static str)
        ensures
            r@ == self.name_spec(),
    {
        match self {
            BumpLevel::Patch => "patch",
            BumpLevel::Minor => "minor",
            BumpLevel::Major => "major",
        }
    }

    pub open spec fn name_spec(self) -> Seq<char> {
        match self {
            BumpLevel::Patch => "patch"@,
            BumpLevel::Minor => "minor"@,
            BumpLevel::Major => "major"@,
        }
    }
}

/// The higher of two optional levels, where no level is below every level.
pub open spec fn join(a: Option<BumpLevel>, b: Option<BumpLevel>) -> Option<BumpLevel> {
    match (a, b) {
        (None, _) => b,
        (_, None) => a,
        (Some(x), Some(y)) => if x.rank() >= y.rank() { a } else { b },
    }
}

fn join_exec(a: Option<BumpLevel>, b: Option<BumpLevel>) -> (r: Option<BumpLevel>)
    ensures
        r == join(a, b),
{
    match (a, b) {
        (None, _) => b,
        (_, None) => a,
        (Some(x), Some(y)) => {
            let rx: u8 = match x { BumpLevel::Patch => 0, BumpLevel::Minor => 1, BumpLevel::Major => 2 };
            let ry: u8 = match y { BumpLevel::Patch => 0, BumpLevel::Minor => 1, BumpLevel::Major => 2 };
            if rx >= ry { a } else { b }
        },
    }
}

/// The highest level that the first `n` commits imply under the rule table `types`.
pub open spec fn max_bump_prefix(
    commits: Seq<ConventionalCommit>,
    types: Seq<CommitType>,
    n: int,
) -> Option<BumpLevel>
    decreases n,
{
    if n <= 0 {
        None
    } else {
        join(
            max_bump_prefix(commits, types, n - 1),
            level_for(types, commits[n - 1].commit_type@, commits[n - 1].breaking),
        )
    }
}

/// The highest level that any of `commits` implies, or `None` when none implies one.
pub open spec fn max_bump(commits: Seq<ConventionalCommit>, types: Seq<CommitType>) -> Option<
    BumpLevel,
> {
    max_bump_prefix(commits, types, commits.len() as int)
}

/// Determine the highest bump level from a set of conventional commits.
///
/// Returns `None` if no commit warrants a release.
pub fn determine_bump(
    commits: &[ConventionalCommit],
    classifier: &DefaultCommitClassifier,
) -> (r: Option<BumpLevel>)
    ensures
        r == max_bump(commits@, classifier.types@),
{
    let mut best: Option<BumpLevel> = None;
    let mut i: usize = 0;
    while i < commits.len()
        invariant
            i <= commits@.len(),
            best == max_bump_prefix(commits@, classifier.types@, i as int),
        decreases commits.len() - i,
    {
        let c = &commits[i];
        let level = classifier.bump_level(c.commit_type.as_str(), c.breaking);
        best = join_exec(best, level);
        i = i + 1;
    }
    best
}

/// A semantic version: three numbers, with optional pre-release and build labels.
#[derive(Debug)]
pub struct Version {
    pub major: u64,
    pub minor: u64,
    pub patch: u64,
    /// Pre-release label without its leading `-`; empty when there is none.
    pub pre: String,
    /// Build label without its leading `+`; empty when there is none.
    pub build: String,
}

impl Version {
    /// The version `major.minor.patch` without labels.
    pub fn new(major: u64, minor: u64, patch: u64) -> (r: Version)
        ensures
            r.major == major,
            r.minor == minor,
            r.patch == patch,
            r.pre@.len() == 0,
            r.build@.len() == 0,
    {
        Version { major, minor, patch, pre: String::new(), build: String::new() }
    }

    /// A copy of this version.
    pub fn duplicate(&self) -> (r: Version)
        ensures
            r.same_as(*self),
    {
        Version {
            major: self.major,
            minor: self.minor,
            patch: self.patch,
            pre: self.pre.clone(),
            build: self.build.clone(),
        }
    }

    /// Both versions hold the same numbers and labels.
    pub open spec fn same_as(self, o: Version) -> bool {
        self.major == o.major && self.minor == o.minor && self.patch == o.patch && self.pre@
            == o.pre@ && self.build@ == o.build@
    }

    /// `self` has strictly lower precedence than `o` by major, then minor, then patch.
    pub open spec fn precedes(self, o: Version) -> bool {
        self.major < o.major || (self.major == o.major && self.minor < o.minor) || (self.major
            == o.major && self.minor == o.minor && self.patch < o.patch)
    }

    /// The text form of the version: `major.minor.patch`, then `-pre` and `+build` where present.
    pub open spec fn text(self) -> Seq<char> {
        decimal(self.major as nat) + seq!['.'] + decimal(self.minor as nat) + seq!['.'] + decimal(
            self.patch as nat,
        ) + (if self.pre@.len() > 0 {
            seq!['-'] + self.pre@
        } else {
            Seq::empty()
        }) + (if self.build@.len() > 0 {
            seq!['+'] + self.build@
        } else {
            Seq::empty()
        })
    }

    /// The text form of the version (see `text`).
    pub fn to_text(&self) -> (r: String)
        ensures
            r@ == self.text(),
    {
        let mut s = numbers_text(self.major, self.minor, self.patch);
        if !self.pre.as_str().is_empty() {
            push_str(&mut s, "-");
            push_str(&mut s, self.pre.as_str());
        }
        if !self.build.as_str().is_empty() {
            push_str(&mut s, "+");
            push_str(&mut s, self.build.as_str());
        }
        proof {
            reveal_strlit("-");
            reveal_strlit("+");
        }
        assert(s@ =~= self.text());
        s
    }
}

/// Relies on semver's `Display` for `Version`: a version without labels prints as
/// `major.minor.patch`, each number in decimal.
#[verifier::external_body]
fn numbers_text(major: u64, minor: u64, patch: u64) -> (r: String)
    ensures
        r@ == decimal(major as nat) + seq!['.'] + decimal(minor as nat) + seq!['.'] + decimal(
            patch as nat,
        ),
{
    semver::Version::new(major, minor, patch).to_string()
}

/// The three numbers of a version.
pub open spec fn numbers(v: Version) -> (u64, u64, u64) {
    (v.major, v.minor, v.patch)
}

/// The numbers that a bump of `level` gives from `n`.
pub open spec fn bump_numbers(n: (u64, u64, u64), level: BumpLevel) -> (u64, u64, u64) {
    match level {
        BumpLevel::Major => ((n.0 + 1) as u64, 0, 0),
        BumpLevel::Minor => (n.0, (n.1 + 1) as u64, 0),
        BumpLevel::Patch => (n.0, n.1, (n.2 + 1) as u64),
    }
}

/// The numbers `n` can be bumped by `level` without leaving `u64`.
pub open spec fn can_bump_numbers(n: (u64, u64, u64), level: BumpLevel) -> bool {
    match level {
        BumpLevel::Major => n.0 < u64::MAX,
        BumpLevel::Minor => n.1 < u64::MAX,
        BumpLevel::Patch => n.2 < u64::MAX,
    }
}

/// The version that a bump of `level` gives from `v`; labels are dropped.
pub open spec fn bumped(v: Version, level: BumpLevel) -> (u64, u64, u64) {
    bump_numbers(numbers(v), level)
}

/// The numbers of `v` can be bumped by `level` without leaving `u64`.
pub open spec fn can_bump(v: Version, level: BumpLevel) -> bool {
    can_bump_numbers(numbers(v), level)
}

/// Apply a bump level to a version, returning the new version.
pub fn apply_bump(version: &Version, bump: BumpLevel) -> (r: Version)
    requires
        can_bump(*version, bump),
    ensures
        (r.major, r.minor, r.patch) == bumped(*version, bump),
        r.pre@.len() == 0,
        r.build@.len() == 0,
        version.precedes(r),
{
    match bump {
        BumpLevel::Major => Version::new(version.major + 1, 0, 0),
        BumpLevel::Minor => Version::new(version.major, version.minor + 1, 0),
        BumpLevel::Patch => Version::new(version.major, version.minor, version.patch + 1),
    }
}

} // verus!

verus! {

proof fn lemma_prefix_none(commits: Seq<ConventionalCommit>, types: Seq<CommitType>, n: int)
    requires
        0 <= n <= commits.len(),
    ensures
        max_bump_prefix(commits, types, n) is None <==> forall|i: int|
            0 <= i < n ==> #[trigger] level_for(
                types,
                commits[i].commit_type@,
                commits[i].breaking,
            ) is None,
    decreases n,
{
    if n > 0 {
        lemma_prefix_none(commits, types, n - 1);
    }
}

/// No release is warranted exactly when no commit implies a level, that is when every
/// commit is non-breaking and its type is unknown or configured with no bump.
pub proof fn lemma_no_release_iff_no_level(commits: Seq<ConventionalCommit>, types: Seq<CommitType>)
    ensures
        max_bump(commits, types) is None <==> forall|i: int|
            0 <= i < commits.len() ==> !(#[trigger] commits[i]).breaking && (!in_table(
                types,
                commits[i].commit_type@,
            ) || types[rule_index(types, commits[i].commit_type@)].bump is None),
{
    lemma_prefix_none(commits, types, commits.len() as int);
    assert forall|i: int| 0 <= i < commits.len() implies (level_for(
        types,
        commits[i].commit_type@,
        commits[i].breaking,
    ) is None <==> (!commits[i].breaking && (!in_table(types, commits[i].commit_type@)
        || types[rule_index(types, commits[i].commit_type@)].bump is None))) by {}
}

proof fn lemma_prefix_major(commits: Seq<ConventionalCommit>, types: Seq<CommitType>, n: int, k: int)
    requires
        0 <= k < n <= commits.len(),
        commits[k].breaking,
    ensures
        max_bump_prefix(commits, types, n) == Some(BumpLevel::Major),
    decreases n,
{
    if k < n - 1 {
        lemma_prefix_major(commits, types, n - 1, k);
    }
}

/// A breaking commit makes the bump `Major`, whatever its type.
pub proof fn lemma_breaking_is_major(commits: Seq<ConventionalCommit>, types: Seq<CommitType>, k: int)
    requires
        0 <= k < commits.len(),
        commits[k].breaking,
    ensures
        max_bump(commits, types) == Some(BumpLevel::Major),
        level_for(types, commits[k].commit_type@, true) == Some(BumpLevel::Major),
{
    lemma_prefix_major(commits, types, commits.len() as int, k);
}

proof fn lemma_prefix_upper(commits: Seq<ConventionalCommit>, types: Seq<CommitType>, n: int, k: int)
    requires
        0 <= k < n <= commits.len(),
    ensures
        match (max_bump_prefix(commits, types, n), level_for(types, commits[k].commit_type@, commits[k].breaking)) {
            (_, None) => true,
            (Some(b), Some(l)) => l.rank() <= b.rank(),
            (None, Some(_)) => false,
        },
    decreases n,
{
    if k < n - 1 {
        lemma_prefix_upper(commits, types, n - 1, k);
    }
}

/// The bump is the highest level that any commit implies: no commit implies a higher one,
/// and some commit implies exactly it.
pub proof fn lemma_bump_is_highest(commits: Seq<ConventionalCommit>, types: Seq<CommitType>)
    ensures
        forall|k: int| 0 <= k < commits.len() ==> match (max_bump(commits, types), #[trigger] level_for(types, commits[k].commit_type@, commits[k].breaking)) {
            (_, None) => true,
            (Some(b), Some(l)) => l.rank() <= b.rank(),
            (None, Some(_)) => false,
        },
        max_bump(commits, types) is Some ==> exists|k: int| 0 <= k < commits.len() && #[trigger] level_for(types, commits[k].commit_type@, commits[k].breaking) == max_bump(commits, types),
{
    assert forall|k: int| 0 <= k < commits.len() implies match (max_bump(commits, types), #[trigger] level_for(types, commits[k].commit_type@, commits[k].breaking)) {
            (_, None) => true,
            (Some(b), Some(l)) => l.rank() <= b.rank(),
            (None, Some(_)) => false,
        } by {
        lemma_prefix_upper(commits, types, commits.len() as int, k);
    }
    lemma_prefix_witness(commits, types, commits.len() as int);
}

proof fn lemma_prefix_witness(commits: Seq<ConventionalCommit>, types: Seq<CommitType>, n: int)
    requires
        0 <= n <= commits.len(),
    ensures
        max_bump_prefix(commits, types, n) is Some ==> exists|k: int| 0 <= k < n && #[trigger] level_for(types, commits[k].commit_type@, commits[k].breaking) == max_bump_prefix(commits, types, n),
    decreases n,
{
    if n > 0 {
        lemma_prefix_witness(commits, types, n - 1);
        let l = level_for(types, commits[n - 1].commit_type@, commits[n - 1].breaking);
        if max_bump_prefix(commits, types, n) == l {
            assert(level_for(types, commits[n - 1].commit_type@, commits[n - 1].breaking) == max_bump_prefix(commits, types, n));
        }
    }
}

} // verus!

verus! {

/// The numbers and labels that semver reads from `text`, or `None` when `text` is no
/// semantic version.
pub uninterp spec fn semver_parts(text: Seq<char>) -> Option<(u64, u64, u64, Seq<char>, Seq<char>)>;

/// Relies on `semver::Version::parse`, which depends on the text alone, and on the `Display`
/// of its pre-release and build labels.
#[verifier::external_body]
fn parse_semver(text: &str) -> (r: Option<Version>)
    ensures
        match r {
            Some(v) => semver_parts(text@) == Some((v.major, v.minor, v.patch, v.pre@, v.build@)),
            None => semver_parts(text@) is None,
        },
{
    let v = semver::Version::parse(text).ok()?;
    Some(Version {
        major: v.major,
        minor: v.minor,
        patch: v.patch,
        pre: v.pre.to_string(),
        build: v.build.to_string(),
    })
}

/// The text of a tag name after `prefix`, or the whole name when it lacks the prefix.
pub open spec fn unprefixed(prefix: Seq<char>, name: Seq<char>) -> Seq<char> {
    if prefix.len() <= name.len() && name.subrange(0, prefix.len() as int) == prefix {
        name.subrange(prefix.len() as int, name.len() as int)
    } else {
        name
    }
}

/// The version that tag `name` carries after `prefix`, if it is a semantic version.
pub fn tag_version(prefix: &str, name: &str) -> (r: Option<Version>)
    ensures
        match r {
            Some(v) => semver_parts(unprefixed(prefix@, name@)) == Some(
                (v.major, v.minor, v.patch, v.pre@, v.build@),
            ),
            None => semver_parts(unprefixed(prefix@, name@)) is None,
        },
{
    let p = crate::text::chars_of(prefix);
    let n = crate::text::chars_of(name);
    let rest = if crate::text::has_at(&n, 0, &p) {
        crate::text::string_of_range(&n, p.len(), n.len())
    } else {
        crate::text::copy_str(name)
    };
    parse_semver(rest.as_str())
}

} // verus!
