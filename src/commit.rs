use vstd::prelude::*;

use crate::error::ReleaseError;
use crate::text::{chars_of, copy_str, push_str, same_text, string_of_range};
use crate::version::BumpLevel;

verus! {

/// A raw commit as read from history.
#[derive(Debug, Clone)]
pub struct Commit {
    pub sha: String,
    pub message: String,
}

/// A commit parsed according to the Conventional Commits convention.
#[derive(Debug, Clone)]
pub struct ConventionalCommit {
    pub sha: String,
    /// The commit type, such as `feat` or `fix`.
    pub commit_type: String,
    pub scope: Option<String>,
    pub description: String,
    pub body: Option<String>,
    pub breaking: bool,
    pub author: Option<String>,
}

fn copy_opt_string(o: &Option<String>) -> (r: Option<String>)
    ensures
        r == *o,
{
    match o {
        Some(s) => Some(s.clone()),
        None => None,
    }
}

impl ConventionalCommit {
    /// A copy of this commit.
    pub fn duplicate(&self) -> (r: ConventionalCommit)
        ensures
            r == *self,
    {
        ConventionalCommit {
            sha: self.sha.clone(),
            commit_type: self.commit_type.clone(),
            scope: copy_opt_string(&self.scope),
            description: self.description.clone(),
            body: copy_opt_string(&self.body),
            breaking: self.breaking,
            author: copy_opt_string(&self.author),
        }
    }
}

/// The characters of an optional string.
pub open spec fn opt_text(o: Option<String>) -> Option<Seq<char>> {
    match o {
        Some(s) => Some(s@),
        None => None,
    }
}

/// Describes a recognised commit type.
#[derive(Debug, Clone)]
pub struct CommitType {
    pub name: String,
    /// The bump this type implies; `None` for types that never trigger a release.
    pub bump: Option<BumpLevel>,
    /// Changelog section heading (e.g. "Features"); `None` keeps it out of every type section.
    pub section: Option<String>,
}

impl CommitType {
    /// A copy of this rule.
    pub fn duplicate(&self) -> (r: CommitType)
        ensures
            r == *self,
    {
        let section = match &self.section {
            Some(s) => Some(s.clone()),
            None => None,
        };
        CommitType { name: self.name.clone(), bump: self.bump, section }
    }
}

/// Index of the first rule at or after `i` named `name`, or `types.len()` when there is none.
pub open spec fn rule_from(types: Seq<CommitType>, name: Seq<char>, i: int) -> int
    decreases types.len() - i,
{
    if i < 0 || i >= types.len() {
        types.len() as int
    } else if types[i].name@ == name {
        i
    } else {
        rule_from(types, name, i + 1)
    }
}

/// Index of the first rule named `name`, or `types.len()` when the type is not in the table.
pub open spec fn rule_index(types: Seq<CommitType>, name: Seq<char>) -> int {
    rule_from(types, name, 0)
}

/// The type `name` appears in the rule table.
pub open spec fn in_table(types: Seq<CommitType>, name: Seq<char>) -> bool {
    rule_index(types, name) < types.len()
}

/// The bump level a commit of type `name` implies: `Major` when breaking, else the
/// level configured for the first rule of that name, if any.
pub open spec fn level_for(types: Seq<CommitType>, name: Seq<char>, breaking: bool) -> Option<
    BumpLevel,
> {
    if breaking {
        Some(BumpLevel::Major)
    } else if in_table(types, name) {
        types[rule_index(types, name)].bump
    } else {
        None
    }
}

/// The changelog section of type `name`, if it is in the table and has one.
pub open spec fn section_for(types: Seq<CommitType>, name: Seq<char>) -> Option<Seq<char>> {
    if in_table(types, name) {
        opt_text(types[rule_index(types, name)].section)
    } else {
        None
    }
}

proof fn lemma_rule_from_bounds(types: Seq<CommitType>, name: Seq<char>, i: int)
    requires
        0 <= i,
    ensures
        i <= rule_from(types, name, i) <= types.len() || (i > types.len() && rule_from(
            types,
            name,
            i,
        ) == types.len()),
        rule_from(types, name, i) < types.len() ==> types[rule_from(types, name, i)].name@
            == name,
    decreases types.len() - i,
{
    if i < types.len() && types[i].name@ != name {
        lemma_rule_from_bounds(types, name, i + 1);
    }
}

/// Index of the first rule of `types` named `kind`, or the table's length.
pub(crate) fn find_rule(types: &Vec<CommitType>, kind: &str) -> (r: usize)
    ensures
        r == rule_index(types@, kind@),
        r <= types@.len(),
        r < types@.len() ==> types@[r as int].name@ == kind@,
{
    proof {
        lemma_rule_from_bounds(types@, kind@, 0);
    }
    let mut i: usize = 0;
    while i < types.len()
        invariant
            i <= types@.len(),
            rule_from(types@, kind@, i as int) == rule_index(types@, kind@),
        decreases types.len() - i,
    {
        if same_text(types[i].name.as_str(), kind) {
            return i;
        }
        i = i + 1;
    }
    i
}

/// Single source of truth for commit type classification.
pub trait CommitClassifier {
    /// The ordered rule table.
    fn types(&self) -> &[CommitType];

    /// The commit message pattern this classifier was configured with.
    fn pattern(&self) -> &str;
}

/// Default conventional commits pattern.
/// Named groups: type, scope (optional), breaking (optional `!`), description.
pub const DEFAULT_COMMIT_PATTERN: &'static str =
    r"^(?P<type>\w+)(?:\((?P<scope>[^)]+)\))?(?P<breaking>!)?:\s+(?P<description>.+)";

/// A classifier driven by an ordered table of commit types.
pub struct DefaultCommitClassifier {
    pub types: Vec<CommitType>,
    pub pattern: String,
}

impl DefaultCommitClassifier {
    pub fn new(types: Vec<CommitType>, pattern: String) -> (r: Self)
        ensures
            r.types@ == types@,
            r.pattern@ == pattern@,
    {
        DefaultCommitClassifier { types, pattern }
    }

    /// The classifier over `default_commit_types` and `DEFAULT_COMMIT_PATTERN`.
    pub fn default() -> (r: Self)
        ensures
            default_types_spec(r.types@),
            r.pattern@ == DEFAULT_COMMIT_PATTERN@,
    {
        let p = copy_str(DEFAULT_COMMIT_PATTERN);
        Self::new(default_commit_types(), p)
    }

    fn find(&self, kind: &str) -> (r: usize)
        ensures
            r == rule_index(self.types@, kind@),
            r <= self.types@.len(),
            r < self.types@.len() ==> self.types@[r as int].name@ == kind@,
    {
        find_rule(&self.types, kind)
    }

    /// The bump level implied by a commit of type `kind`.
    pub fn bump_level(&self, kind: &str, breaking: bool) -> (r: Option<BumpLevel>)
        ensures
            r == level_for(self.types@, kind@, breaking),
    {
        if breaking {
            return Some(BumpLevel::Major);
        }
        let i = self.find(kind);
        proof {
            lemma_rule_from_bounds(self.types@, kind@, 0);
        }
        if i < self.types.len() {
            self.types[i].bump
        } else {
            None
        }
    }

    /// The changelog section for commits of type `kind`.
    pub fn changelog_section(&self, kind: &str) -> (r: Option<&str>)
        ensures
            match r {
                Some(s) => section_for(self.types@, kind@) == Some(s@),
                None => section_for(self.types@, kind@) is None,
            },
    {
        let i = self.find(kind);
        proof {
            lemma_rule_from_bounds(self.types@, kind@, 0);
        }
        if i < self.types.len() {
            match &self.types[i].section {
                Some(s) => Some(s.as_str()),
                None => None,
            }
        } else {
            None
        }
    }

    /// Whether `kind` appears in the table at all.
    pub fn is_allowed(&self, kind: &str) -> (r: bool)
        ensures
            r == in_table(self.types@, kind@),
    {
        let i = self.find(kind);
        proof {
            lemma_rule_from_bounds(self.types@, kind@, 0);
        }
        i < self.types.len()
    }
}

impl CommitClassifier for DefaultCommitClassifier {
    fn types(&self) -> &[CommitType] {
        self.types.as_slice()
    }

    fn pattern(&self) -> &str {
        self.pattern.as_str()
    }
}

/// The rule `(name, bump, section)`.
pub open spec fn rule_is(t: CommitType, name: Seq<char>, bump: Option<BumpLevel>, section: Option<Seq<char>>) -> bool {
    t.name@ == name && t.bump == bump && opt_text(t.section) == section
}

/// The default rule table.
pub open spec fn default_types_spec(t: Seq<CommitType>) -> bool {
    &&& t.len() == 11
    &&& rule_is(t[0], "feat"@, Some(BumpLevel::Minor), Some("Features"@))
    &&& rule_is(t[1], "fix"@, Some(BumpLevel::Patch), Some("Bug Fixes"@))
    &&& rule_is(t[2], "perf"@, Some(BumpLevel::Patch), Some("Performance"@))
    &&& rule_is(t[3], "docs"@, None, Some("Documentation"@))
    &&& rule_is(t[4], "refactor"@, None, Some("Refactoring"@))
    &&& rule_is(t[5], "revert"@, None, Some("Reverts"@))
    &&& rule_is(t[6], "chore"@, None, None)
    &&& rule_is(t[7], "ci"@, None, None)
    &&& rule_is(t[8], "test"@, None, None)
    &&& rule_is(t[9], "build"@, None, None)
    &&& rule_is(t[10], "style"@, None, None)
}

fn rule(name: &str, bump: Option<BumpLevel>, section: Option<&str>) -> (r: CommitType)
    ensures
        r.name@ == name@,
        r.bump == bump,
        opt_text(r.section) == match section {
            Some(s) => Some(s@),
            None => None::<Seq<char>>,
        },
{
    let sec = match section {
        Some(s) => Some(copy_str(s)),
        None => None,
    };
    CommitType { name: copy_str(name), bump, section: sec }
}

/// The default table of commit types.
pub fn default_commit_types() -> (r: Vec<CommitType>)
    ensures
        default_types_spec(r@),
{
    let mut v: Vec<CommitType> = Vec::new();
    v.push(rule("feat", Some(BumpLevel::Minor), Some("Features")));
    v.push(rule("fix", Some(BumpLevel::Patch), Some("Bug Fixes")));
    v.push(rule("perf", Some(BumpLevel::Patch), Some("Performance")));
    v.push(rule("docs", None, Some("Documentation")));
    v.push(rule("refactor", None, Some("Refactoring")));
    v.push(rule("revert", None, Some("Reverts")));
    v.push(rule("chore", None, None));
    v.push(rule("ci", None, None));
    v.push(rule("test", None, None));
    v.push(rule("build", None, None));
    v.push(rule("style", None, None));
    v
}

} // verus!

verus! {

/// A character of a commit type: an ASCII letter or digit, or `_`.
pub open spec fn is_word_char(c: char) -> bool {
    ('a' as u32 <= c as u32 <= 'z' as u32) || ('A' as u32 <= c as u32 <= 'Z' as u32) || ('0' as u32
        <= c as u32 <= '9' as u32) || c == '_'
}

/// A Unicode white-space character.
pub open spec fn is_space(c: char) -> bool {
    let u = c as u32;
    (9 <= u <= 13) || u == 32 || u == 0x85 || u == 0xa0 || u == 0x1680 || (0x2000 <= u <= 0x200a)
        || u == 0x2028 || u == 0x2029 || u == 0x202f || u == 0x205f || u == 0x3000
}

/// End of the run of word characters starting at `i`.
pub open spec fn word_end(m: Seq<char>, i: int) -> int
    decreases m.len() - i,
{
    if 0 <= i < m.len() && is_word_char(m[i]) {
        word_end(m, i + 1)
    } else {
        i
    }
}

/// End of the run of white space starting at `i`.
pub open spec fn space_end(m: Seq<char>, i: int) -> int
    decreases m.len() - i,
{
    if 0 <= i < m.len() && is_space(m[i]) {
        space_end(m, i + 1)
    } else {
        i
    }
}

/// Index of the first `c` at or after `i`, or `m.len()` when there is none.
pub open spec fn find_char(m: Seq<char>, c: char, i: int) -> int
    decreases m.len() - i,
{
    if i >= m.len() {
        m.len() as int
    } else if 0 <= i && m[i] == c {
        i
    } else {
        find_char(m, c, i + 1)
    }
}

/// The greatest index in `lo..=hi` that holds no line break, or `-1`.
pub open spec fn last_text_index(m: Seq<char>, hi: int, lo: int) -> int
    decreases hi - lo + 1,
{
    if hi < lo {
        -1
    } else if m[hi] != '\n' {
        hi
    } else {
        last_text_index(m, hi - 1, lo)
    }
}

/// Index of the first blank line separator `"\n\n"` at or after `i`, or `m.len()`.
pub open spec fn find_blank(m: Seq<char>, i: int) -> int
    decreases m.len() - i,
{
    if i < 0 || i + 1 >= m.len() {
        m.len() as int
    } else if m[i] == '\n' && m[i + 1] == '\n' {
        i
    } else {
        find_blank(m, i + 1)
    }
}

pub open spec fn type_end(m: Seq<char>) -> int {
    word_end(m, 0)
}

pub open spec fn has_scope(m: Seq<char>) -> bool {
    type_end(m) < m.len() && m[type_end(m)] == '('
}

pub open spec fn scope_close(m: Seq<char>) -> int {
    find_char(m, ')', type_end(m) + 1)
}

pub open spec fn after_scope(m: Seq<char>) -> int {
    if has_scope(m) {
        scope_close(m) + 1
    } else {
        type_end(m)
    }
}

pub open spec fn has_bang(m: Seq<char>) -> bool {
    after_scope(m) < m.len() && m[after_scope(m)] == '!'
}

pub open spec fn colon_at(m: Seq<char>) -> int {
    if has_bang(m) {
        after_scope(m) + 1
    } else {
        after_scope(m)
    }
}

pub open spec fn space_start(m: Seq<char>) -> int {
    colon_at(m) + 1
}

/// Where the description starts: after the longest run of white space behind the colon
/// that still leaves a character other than a line break.
pub open spec fn desc_start(m: Seq<char>) -> int {
    let e = space_end(m, space_start(m));
    let hi = if e < m.len() {
        e
    } else {
        m.len() - 1
    };
    last_text_index(m, hi, space_start(m) + 1)
}

pub open spec fn desc_end(m: Seq<char>) -> int {
    find_char(m, '\n', desc_start(m))
}

/// `m` has a header of the shape `type[(scope)][!]: description`.
pub open spec fn is_conventional(m: Seq<char>) -> bool {
    &&& type_end(m) > 0
    &&& has_scope(m) ==> type_end(m) + 1 < scope_close(m) < m.len()
    &&& colon_at(m) < m.len() && m[colon_at(m)] == ':'
    &&& space_end(m, space_start(m)) > space_start(m)
    &&& desc_start(m) >= 0
}

/// The parts of a conventional commit message `m`.
pub open spec fn parsed_type(m: Seq<char>) -> Seq<char> {
    m.subrange(0, type_end(m))
}

pub open spec fn parsed_scope(m: Seq<char>) -> Option<Seq<char>> {
    if has_scope(m) {
        Some(m.subrange(type_end(m) + 1, scope_close(m)))
    } else {
        None
    }
}

pub open spec fn parsed_description(m: Seq<char>) -> Seq<char> {
    m.subrange(desc_start(m), desc_end(m))
}

/// Everything after the first blank line, if there is one.
pub open spec fn parsed_body(m: Seq<char>) -> Option<Seq<char>> {
    if find_blank(m, 0) < m.len() {
        Some(m.subrange(find_blank(m, 0) + 2, m.len() as int))
    } else {
        None
    }
}

fn is_word_char_exec(c: char) -> (r: bool)
    ensures
        r == is_word_char(c),
{
    ('a' <= c && c <= 'z') || ('A' <= c && c <= 'Z') || ('0' <= c && c <= '9') || c == '_'
}

pub(crate) fn is_space_exec(c: char) -> (r: bool)
    ensures
        r == is_space(c),
{
    let u = c as u32;
    (9 <= u && u <= 13) || u == 32 || u == 0x85 || u == 0xa0 || u == 0x1680 || (0x2000 <= u && u
        <= 0x200a) || u == 0x2028 || u == 0x2029 || u == 0x202f || u == 0x205f || u == 0x3000
}

fn word_end_exec(m: &Vec<char>, i: usize) -> (r: usize)
    requires
        i <= m@.len(),
    ensures
        r == word_end(m@, i as int),
        i <= r <= m@.len(),
{
    let mut j = i;
    while j < m.len() && is_word_char_exec(m[j])
        invariant
            i <= j <= m@.len(),
            word_end(m@, j as int) == word_end(m@, i as int),
        decreases m.len() - j,
    {
        j = j + 1;
    }
    j
}

pub(crate) fn space_end_exec(m: &Vec<char>, i: usize) -> (r: usize)
    requires
        i <= m@.len(),
    ensures
        r == space_end(m@, i as int),
        i <= r <= m@.len(),
        forall|k: int| i <= k < r ==> is_space(m@[k]),
{
    let mut j = i;
    while j < m.len() && is_space_exec(m[j])
        invariant
            i <= j <= m@.len(),
            space_end(m@, j as int) == space_end(m@, i as int),
            forall|k: int| i <= k < j ==> is_space(m@[k]),
        decreases m.len() - j,
    {
        j = j + 1;
    }
    j
}

pub(crate) fn find_char_exec(m: &Vec<char>, c: char, i: usize) -> (r: usize)
    requires
        i <= m@.len(),
    ensures
        r == find_char(m@, c, i as int),
        i <= r <= m@.len(),
        forall|k: int| i <= k < r ==> m@[k] != c,
{
    let mut j = i;
    while j < m.len() && m[j] != c
        invariant
            i <= j <= m@.len(),
            find_char(m@, c, j as int) == find_char(m@, c, i as int),
            forall|k: int| i <= k < j ==> m@[k] != c,
        decreases m.len() - j,
    {
        j = j + 1;
    }
    j
}

pub(crate) fn find_blank_exec(m: &Vec<char>) -> (r: usize)
    ensures
        r == find_blank(m@, 0),
{
    let mut j: usize = 0;
    while j < m.len() && j + 1 < m.len() && !(m[j] == '\n' && m[j + 1] == '\n')
        invariant
            find_blank(m@, j as int) == find_blank(m@, 0),
            j <= m@.len(),
        decreases m.len() - j,
    {
        j = j + 1;
    }
    if j < m.len() && j + 1 < m.len() {
        j
    } else {
        m.len()
    }
}

/// The greatest index in `lo..=hi` without a line break, if any.
fn last_text_index_exec(m: &Vec<char>, hi: usize, lo: usize) -> (r: Option<usize>)
    requires
        hi < m@.len(),
    ensures
        match r {
            Some(d) => d as int == last_text_index(m@, hi as int, lo as int) && lo <= d <= hi,
            None => last_text_index(m@, hi as int, lo as int) == -1,
        },
{
    let mut h = hi;
    loop
        invariant
            h <= hi < m@.len(),
            last_text_index(m@, h as int, lo as int) == last_text_index(m@, hi as int, lo as int),
        decreases h,
    {
        if h < lo {
            return None;
        }
        if m[h] != '\n' {
            return Some(h);
        }
        if h == 0 {
            assert(last_text_index(m@, -1, lo as int) == -1);
            return None;
        }
        h = h - 1;
    }
}

/// Parses raw commits into conventional commits.
pub trait CommitParser {
    fn parse(&self, commit: &Commit) -> Result<ConventionalCommit, ReleaseError>;
}

/// The parser for the `type[(scope)][!]: description` header, with an optional body
/// after the first blank line.
pub struct DefaultCommitParser;

impl DefaultCommitParser {
    /// Parses `commit`; fails exactly when its message has no conventional header.
    pub fn parse(&self, commit: &Commit) -> (r: Result<ConventionalCommit, ReleaseError>)
        ensures
            r is Ok <==> is_conventional(commit.message@),
            r is Err ==> r->Err_0 is Config,
            r matches Ok(c) ==> {
                let m = commit.message@;
                &&& c.sha@ == commit.sha@
                &&& c.commit_type@ == parsed_type(m)
                &&& opt_text(c.scope) == parsed_scope(m)
                &&& c.breaking == has_bang(m)
                &&& c.description@ == parsed_description(m)
                &&& opt_text(c.body) == parsed_body(m)
                &&& c.author is None
            },
    {
        let m = chars_of(commit.message.as_str());
        let ghost g = m@;
        let n = m.len();
        let t_end = word_end_exec(&m, 0);
        if t_end == 0 {
            return Err(not_conventional(commit));
        }
        let scoped = t_end < n && m[t_end] == '(';
        let mut after = t_end;
        let mut scope: Option<String> = None;
        if scoped {
            let close = find_char_exec(&m, ')', t_end + 1);
            if !(t_end + 1 < close && close < n) {
                return Err(not_conventional(commit));
            }
            scope = Some(string_of_range(&m, t_end + 1, close));
            after = close + 1;
        }
        let bang = after < n && m[after] == '!';
        let colon = if bang { after + 1 } else { after };
        if !(colon < n && m[colon] == ':') {
            return Err(not_conventional(commit));
        }
        let start = colon + 1;
        let e = space_end_exec(&m, start);
        if e == start {
            return Err(not_conventional(commit));
        }
        let hi = if e < n { e } else { n - 1 };
        let d = match last_text_index_exec(&m, hi, start + 1) {
            Some(d) => d,
            None => {
                return Err(not_conventional(commit));
            },
        };
        let d_end = find_char_exec(&m, '\n', d);
        let blank = find_blank_exec(&m);
        proof {
            lemma_find_blank_bound(g, 0);
        }
        let body = if blank < n { Some(string_of_range(&m, blank + 2, n)) } else { None };
        Ok(ConventionalCommit {
            sha: commit.sha.clone(),
            commit_type: string_of_range(&m, 0, t_end),
            scope,
            description: string_of_range(&m, d, d_end),
            body,
            breaking: bang,
            author: None,
        })
    }
}

pub(crate) proof fn lemma_find_blank_bound(m: Seq<char>, i: int)
    requires
        0 <= i,
    ensures
        find_blank(m, i) == m.len() || (i <= find_blank(m, i) && find_blank(m, i) + 1 < m.len()),
    decreases m.len() - i,
{
    if i + 1 < m.len() && !(m[i] == '\n' && m[i + 1] == '\n') {
        lemma_find_blank_bound(m, i + 1);
    }
}

fn not_conventional(commit: &Commit) -> (r: ReleaseError)
    ensures
        r is Config,
{
    let mut s = String::new();
    push_str(&mut s, "not a conventional commit: ");
    push_str(&mut s, commit.message.as_str());
    ReleaseError::Config(s)
}

impl CommitParser for DefaultCommitParser {
    fn parse(&self, commit: &Commit) -> Result<ConventionalCommit, ReleaseError> {
        DefaultCommitParser::parse(self, commit)
    }
}

} // verus!
