use vstd::prelude::*;

use crate::commit::{
    CommitType, ConventionalCommit, find_blank, find_blank_exec, find_rule, in_table, is_space,
    is_space_exec, lemma_find_blank_bound, opt_text, section_for,
};
use crate::error::ReleaseError;
use crate::text::{chars_of, copy_str, push_str, same_text, string_of_range};

verus! {

/// A single changelog entry representing a release.
#[derive(Debug, Clone)]
pub struct ChangelogEntry {
    pub version: String,
    pub date: String,
    pub commits: Vec<ConventionalCommit>,
    pub compare_url: Option<String>,
    pub repo_url: Option<String>,
    /// Pairs of author name and external handle (such as `@username`); the first pair for a
    /// name wins.
    pub contributor_map: Vec<(String, String)>,
}

/// The characters of each string.
pub open spec fn views(v: Seq<String>) -> Seq<Seq<char>> {
    v.map_values(|s: String| s@)
}

/// The first seven characters of `sha`, or all of it when it is shorter.
pub open spec fn short_sha(sha: Seq<char>) -> Seq<char> {
    if sha.len() <= 7 {
        sha
    } else {
        sha.subrange(0, 7)
    }
}

/// The rendered line of one commit.
pub open spec fn commit_line(c: ConventionalCommit, repo: Option<Seq<char>>) -> Seq<char> {
    let shown = match repo {
        Some(url) => "["@ + short_sha(c.sha@) + "]("@ + url + "/commit/"@ + c.sha@ + ")"@,
        None => short_sha(c.sha@),
    };
    let scope = match opt_text(c.scope) {
        Some(s) => "**"@ + s + "**: "@,
        None => Seq::empty(),
    };
    "- "@ + scope + c.description@ + " ("@ + shown + ")\n"@
}

/// The groups of commits that the changelog renders.
#[derive(Debug, Clone, Copy, PartialEq, Eq, Structural)]
pub enum Group {
    /// Every breaking commit.
    Breaking,
    /// Non-breaking commits whose type maps to the given section label.
    Section,
    /// Non-breaking commits whose type is in the table but maps to no section.
    Misc,
}

/// Whether commit `c` belongs to group `g` (with section label `label`) under `types`.
pub open spec fn belongs(types: Seq<CommitType>, c: ConventionalCommit, g: Group, label: Seq<char>) -> bool {
    match g {
        Group::Breaking => c.breaking,
        Group::Section => !c.breaking && section_for(types, c.commit_type@) == Some(label),
        Group::Misc => !c.breaking && in_table(types, c.commit_type@) && section_for(
            types,
            c.commit_type@,
        ) is None,
    }
}

/// The lines of the first `n` commits that belong to group `g`, in commit order.
pub open spec fn lines_of(
    commits: Seq<ConventionalCommit>,
    repo: Option<Seq<char>>,
    types: Seq<CommitType>,
    g: Group,
    label: Seq<char>,
    n: int,
) -> Seq<char>
    decreases n,
{
    if n <= 0 {
        Seq::empty()
    } else {
        let prev = lines_of(commits, repo, types, g, label, n - 1);
        if belongs(types, commits[n - 1], g, label) {
            prev + commit_line(commits[n - 1], repo)
        } else {
            prev
        }
    }
}

/// A section with its heading, or nothing when it has no lines.
pub open spec fn block(label: Seq<char>, lines: Seq<char>) -> Seq<char> {
    if lines.len() == 0 {
        Seq::empty()
    } else {
        "\n### "@ + label + "\n\n"@ + lines
    }
}

/// The distinct section labels of the first `n` rules, in order of first declaration.
pub open spec fn section_labels(types: Seq<CommitType>, n: int) -> Seq<Seq<char>>
    decreases n,
{
    if n <= 0 {
        Seq::empty()
    } else {
        let prev = section_labels(types, n - 1);
        match opt_text(types[n - 1].section) {
            Some(s) => if prev.contains(s) {
                prev
            } else {
                prev.push(s)
            },
            None => prev,
        }
    }
}

/// The type sections for the first `k` labels.
pub open spec fn sections_text(
    commits: Seq<ConventionalCommit>,
    repo: Option<Seq<char>>,
    types: Seq<CommitType>,
    labels: Seq<Seq<char>>,
    k: int,
) -> Seq<char>
    decreases k,
{
    if k <= 0 {
        Seq::empty()
    } else {
        sections_text(commits, repo, types, labels, k - 1) + block(
            labels[k - 1],
            lines_of(commits, repo, types, Group::Section, labels[k - 1], commits.len() as int),
        )
    }
}

/// `a` comes strictly before `b` in code point order.
pub open spec fn lex_lt(a: Seq<char>, b: Seq<char>) -> bool
    decreases a.len(),
{
    if a.len() == 0 {
        b.len() > 0
    } else if b.len() == 0 {
        false
    } else if a[0] != b[0] {
        (a[0] as u32) < (b[0] as u32)
    } else {
        lex_lt(a.drop_first(), b.drop_first())
    }
}

/// `a` inserted into `l` before the first element that it precedes, unless it is already there.
pub open spec fn insert_sorted(l: Seq<Seq<char>>, a: Seq<char>) -> Seq<Seq<char>>
    decreases l.len(),
{
    if l.len() == 0 {
        seq![a]
    } else if l[0] == a {
        l
    } else if lex_lt(a, l[0]) {
        seq![a] + l
    } else {
        seq![l[0]] + insert_sorted(l.drop_first(), a)
    }
}

/// The distinct authors of the first `n` commits, in code point order.
pub open spec fn authors_sorted(commits: Seq<ConventionalCommit>, n: int) -> Seq<Seq<char>>
    decreases n,
{
    if n <= 0 {
        Seq::empty()
    } else {
        let prev = authors_sorted(commits, n - 1);
        match opt_text(commits[n - 1].author) {
            Some(a) => insert_sorted(prev, a),
            None => prev,
        }
    }
}

/// The handle of the first pair at or after `i` whose name is `a`.
pub open spec fn handle_from(map: Seq<(String, String)>, a: Seq<char>, i: int) -> Option<Seq<char>>
    decreases map.len() - i,
{
    if i < 0 || i >= map.len() {
        None
    } else if map[i].0@ == a {
        Some(map[i].1@)
    } else {
        handle_from(map, a, i + 1)
    }
}

/// How author `a` is shown: the handle the map gives it, else the name itself.
pub open spec fn display_name(map: Seq<(String, String)>, a: Seq<char>) -> Seq<char> {
    match handle_from(map, a, 0) {
        Some(h) => h,
        None => a,
    }
}

pub open spec fn contributor_lines(map: Seq<(String, String)>, authors: Seq<Seq<char>>, k: int) -> Seq<char>
    decreases k,
{
    if k <= 0 {
        Seq::empty()
    } else {
        contributor_lines(map, authors, k - 1) + "- "@ + display_name(map, authors[k - 1]) + "\n"@
    }
}

pub open spec fn contributors_text(e: ChangelogEntry) -> Seq<char> {
    let authors = authors_sorted(e.commits@, e.commits@.len() as int);
    if authors.len() == 0 {
        Seq::empty()
    } else {
        "\n### Contributors\n\n"@ + contributor_lines(e.contributor_map@, authors, authors.len() as int)
    }
}

pub open spec fn compare_text(e: ChangelogEntry) -> Seq<char> {
    match opt_text(e.compare_url) {
        Some(u) => "\n[Full Changelog]("@ + u + ")\n"@,
        None => Seq::empty(),
    }
}

/// The prefix of `s` before its trailing white space, ending at or before `k`.
pub open spec fn trim_point(s: Seq<char>, k: int) -> int
    decreases k,
{
    if k > 0 && k <= s.len() && is_space(s[k - 1]) {
        trim_point(s, k - 1)
    } else {
        k
    }
}

/// `s` without trailing white space.
pub open spec fn trim_end(s: Seq<char>) -> Seq<char> {
    s.subrange(0, trim_point(s, s.len() as int))
}

/// The first names of `pairs`.
pub open spec fn names_of(pairs: Seq<(Seq<char>, Seq<char>)>) -> Seq<Seq<char>> {
    pairs.map_values(|p: (Seq<char>, Seq<char>)| p.0)
}

/// Each distinct author of the first `n` commits with the sha of its first commit, in order
/// of first appearance.
pub open spec fn author_pairs(commits: Seq<ConventionalCommit>, n: int) -> Seq<(Seq<char>, Seq<char>)>
    decreases n,
{
    if n <= 0 {
        Seq::empty()
    } else {
        let prev = author_pairs(commits, n - 1);
        match opt_text(commits[n - 1].author) {
            Some(a) => if names_of(prev).contains(a) {
                prev
            } else {
                prev.push((a, commits[n - 1].sha@))
            },
            None => prev,
        }
    }
}

/// The characters of each pair of strings.
pub open spec fn pair_views(v: Seq<(&str, &str)>) -> Seq<(Seq<char>, Seq<char>)> {
    v.map_values(|p: (&str, &str)| (p.0@, p.1@))
}

impl ChangelogEntry {
    /// Returns deduplicated `(author_name, sha)` pairs from commits, using the first sha
    /// encountered for each author.
    pub fn unique_author_shas(&self) -> (r: Vec<(&str, &str)>)
        ensures
            pair_views(r@) == author_pairs(self.commits@, self.commits@.len() as int),
    {
        let mut out: Vec<(&str, &str)> = Vec::new();
        let mut i: usize = 0;
        while i < self.commits.len()
            invariant
                i <= self.commits@.len(),
                pair_views(out@) == author_pairs(self.commits@, i as int),
            decreases self.commits.len() - i,
        {
            let c = &self.commits[i];
            match &c.author {
                Some(a) => {
                    let mut j: usize = 0;
                    let mut found = false;
                    while j < out.len()
                        invariant
                            j <= out@.len(),
                            found == exists|x: int| 0 <= x < j && out@[x].0@ == a@,
                        decreases out.len() - j,
                    {
                        if same_text(out[j].0, a.as_str()) {
                            found = true;
                        }
                        j = j + 1;
                    }
                    let ghost names = names_of(pair_views(out@));
                    proof {
                        if found {
                            let x = choose|x: int| 0 <= x < j && out@[x].0@ == a@;
                            assert(names[x] == a@);
                        } else {
                            assert forall|x: int| 0 <= x < names.len() implies names[x] != a@ by {}
                        }
                    }
                    if !found {
                        out.push((a.as_str(), c.sha.as_str()));
                        assert(pair_views(out@) =~= author_pairs(self.commits@, i + 1));
                    }
                },
                None => {},
            }
            i = i + 1;
        }
        out
    }
}

/// The changelog file after adding `body`: a new file with a top-level heading when
/// `existing` is empty, else `body` inserted at the first blank line.
pub open spec fn merged_changelog(existing: Seq<char>, body: Seq<char>) -> Seq<char> {
    let p = find_blank(existing, 0);
    if existing.len() == 0 {
        "# Changelog\n\n"@ + body + "\n"@
    } else if p < existing.len() {
        existing.subrange(0, p) + "\n\n"@ + body + "\n"@ + existing.subrange(p, existing.len() as int)
    } else {
        existing + "\n\n"@ + body + "\n"@
    }
}

/// The changelog file after adding `body` (see `merged_changelog`).
pub fn merge_changelog(existing: &str, body: &str) -> (r: String)
    ensures
        r@ == merged_changelog(existing@, body@),
{
    let mut out = String::new();
    if existing.is_empty() {
        push_str(&mut out, "# Changelog\n\n");
        push_str(&mut out, body);
        push_str(&mut out, "\n");
        assert(out@ =~= merged_changelog(existing@, body@));
        return out;
    }
    let m = chars_of(existing);
    let p = find_blank_exec(&m);
    proof {
        lemma_find_blank_bound(m@, 0);
    }
    if p < m.len() {
        let head = string_of_range(&m, 0, p);
        let rest = string_of_range(&m, p, m.len());
        push_str(&mut out, head.as_str());
        push_str(&mut out, "\n\n");
        push_str(&mut out, body);
        push_str(&mut out, "\n");
        push_str(&mut out, rest.as_str());
    } else {
        push_str(&mut out, existing);
        push_str(&mut out, "\n\n");
        push_str(&mut out, body);
        push_str(&mut out, "\n");
    }
    assert(out@ =~= merged_changelog(existing@, body@));
    out
}

/// Formats changelog entries into a string representation.
pub trait ChangelogFormatter {
    fn format(&self, entries: &[ChangelogEntry]) -> Result<String, ReleaseError>;
}

/// Formatter that produces Markdown.
pub struct DefaultChangelogFormatter {
    pub template: Option<String>,
    pub types: Vec<CommitType>,
    pub breaking_section: String,
    pub misc_section: String,
}

impl DefaultChangelogFormatter {
    pub fn new(
        template: Option<String>,
        types: Vec<CommitType>,
        breaking_section: String,
        misc_section: String,
    ) -> (r: Self)
        ensures
            r.types@ == types@,
            r.breaking_section@ == breaking_section@,
            r.misc_section@ == misc_section@,
            opt_text(r.template) == opt_text(template),
    {
        DefaultChangelogFormatter { template, types, breaking_section, misc_section }
    }

    /// The rendered text of one entry.
    pub open spec fn entry_text(&self, e: ChangelogEntry) -> Seq<char> {
        let c = e.commits@;
        let repo = opt_text(e.repo_url);
        let t = self.types@;
        let labels = section_labels(t, t.len() as int);
        "## "@ + e.version@ + " ("@ + e.date@ + ")\n"@ + block(
            self.breaking_section@,
            lines_of(c, repo, t, Group::Breaking, Seq::empty(), c.len() as int),
        ) + sections_text(c, repo, t, labels, labels.len() as int) + block(
            self.misc_section@,
            lines_of(c, repo, t, Group::Misc, Seq::empty(), c.len() as int),
        ) + contributors_text(e) + compare_text(e) + "\n"@
    }

    /// The first `n` entries rendered one after the other.
    pub open spec fn entries_text(&self, entries: Seq<ChangelogEntry>, n: int) -> Seq<char>
        decreases n,
    {
        if n <= 0 {
            Seq::empty()
        } else {
            self.entries_text(entries, n - 1) + self.entry_text(entries[n - 1])
        }
    }

    /// Renders `entries` in the order given, without trailing white space.
    pub fn format(&self, entries: &[ChangelogEntry]) -> (r: Result<String, ReleaseError>)
        ensures
            r matches Ok(s) && s@ == trim_end(self.entries_text(entries@, entries@.len() as int)),
    {
        let labels = self.section_labels_exec();
        let mut out = String::new();
        let mut i: usize = 0;
        while i < entries.len()
            invariant
                i <= entries@.len(),
                views(labels@) == section_labels(self.types@, self.types@.len() as int),
                out@ == self.entries_text(entries@, i as int),
            decreases entries.len() - i,
        {
            self.push_entry(&mut out, &entries[i], &labels);
            i = i + 1;
        }
        Ok(trim_end_exec(&out))
    }

    #[verifier::rlimit(40)]
    fn push_entry(&self, out: &mut String, e: &ChangelogEntry, labels: &Vec<String>)
        requires
            views(labels@) == section_labels(self.types@, self.types@.len() as int),
        ensures
            final(out)@ == old(out)@ + self.entry_text(*e),
    {
        let ghost start = out@;
        push_str(out, "## ");
        push_str(out, e.version.as_str());
        push_str(out, " (");
        push_str(out, e.date.as_str());
        push_str(out, ")\n");
        let breaking = self.lines(&e.commits, &e.repo_url, Group::Breaking, "");
        push_block(out, self.breaking_section.as_str(), &breaking);
        let ghost before_sections = out@;
        let mut k: usize = 0;
        while k < labels.len()
            invariant
                k <= labels@.len(),
                views(labels@) == section_labels(self.types@, self.types@.len() as int),
                out@ == before_sections + sections_text(e.commits@, opt_text(e.repo_url), self.types@, views(labels@), k as int),
            decreases labels.len() - k,
        {
            let lines = self.lines(&e.commits, &e.repo_url, Group::Section, labels[k].as_str());
            push_block(out, labels[k].as_str(), &lines);
            k = k + 1;
        }
        let misc = self.lines(&e.commits, &e.repo_url, Group::Misc, "");
        push_block(out, self.misc_section.as_str(), &misc);
        push_contributors(out, e);
        match &e.compare_url {
            Some(u) => {
                push_str(out, "\n[Full Changelog](");
                push_str(out, u.as_str());
                push_str(out, ")\n");
            },
            None => {},
        }
        push_str(out, "\n");
        proof {
            reveal_strlit("");
        }
        assert(""@ =~= Seq::<char>::empty());
        assert(out@ =~= start + self.entry_text(*e));
    }

    /// The distinct section labels of the rule table, in order of first declaration.
    fn section_labels_exec(&self) -> (r: Vec<String>)
        ensures
            views(r@) == section_labels(self.types@, self.types@.len() as int),
    {
        let mut out: Vec<String> = Vec::new();
        let mut i: usize = 0;
        while i < self.types.len()
            invariant
                i <= self.types@.len(),
                views(out@) == section_labels(self.types@, i as int),
            decreases self.types.len() - i,
        {
            match &self.types[i].section {
                Some(s) => {
                    let mut j: usize = 0;
                    let mut found = false;
                    while j < out.len()
                        invariant
                            j <= out@.len(),
                            found == exists|x: int| 0 <= x < j && out@[x]@ == s@,
                        decreases out.len() - j,
                    {
                        if same_text(out[j].as_str(), s.as_str()) {
                            found = true;
                        }
                        j = j + 1;
                    }
                    proof {
                        if found {
                            let x = choose|x: int| 0 <= x < j && out@[x]@ == s@;
                            assert(views(out@)[x] == s@);
                        } else {
                            assert forall|x: int| 0 <= x < views(out@).len() implies views(out@)[x] != s@ by {}
                        }
                    }
                    if !found {
                        out.push(s.clone());
                    }
                },
                None => {},
            }
            i = i + 1;
        }
        out
    }

    /// Whether `c` belongs to group `g` with section label `label`.
    fn belongs_exec(&self, c: &ConventionalCommit, g: Group, label: &str) -> (r: bool)
        ensures
            r == belongs(self.types@, *c, g, label@),
    {
        match g {
            Group::Breaking => c.breaking,
            Group::Section => {
                if c.breaking {
                    return false;
                }
                let i = find_rule(&self.types, c.commit_type.as_str());
                if i < self.types.len() {
                    match &self.types[i].section {
                        Some(s) => same_text(s.as_str(), label),
                        None => false,
                    }
                } else {
                    false
                }
            },
            Group::Misc => {
                if c.breaking {
                    return false;
                }
                let i = find_rule(&self.types, c.commit_type.as_str());
                i < self.types.len() && self.types[i].section.is_none()
            },
        }
    }

    /// The lines of the commits in group `g`, in commit order.
    fn lines(&self, commits: &Vec<ConventionalCommit>, repo: &Option<String>, g: Group, label: &str) -> (r: String)
        ensures
            r@ == lines_of(commits@, opt_text(*repo), self.types@, g, label@, commits@.len() as int),
    {
        let mut out = String::new();
        let mut i: usize = 0;
        while i < commits.len()
            invariant
                i <= commits@.len(),
                out@ == lines_of(commits@, opt_text(*repo), self.types@, g, label@, i as int),
            decreases commits.len() - i,
        {
            if self.belongs_exec(&commits[i], g, label) {
                format_commit_line(&mut out, &commits[i], repo);
            }
            i = i + 1;
        }
        out
    }
}

impl ChangelogFormatter for DefaultChangelogFormatter {
    fn format(&self, entries: &[ChangelogEntry]) -> Result<String, ReleaseError> {
        DefaultChangelogFormatter::format(self, entries)
    }
}

fn push_block(out: &mut String, label: &str, lines: &String)
    ensures
        final(out)@ == old(out)@ + block(label@, lines@),
{
    if !lines.as_str().is_empty() {
        push_str(out, "\n### ");
        push_str(out, label);
        push_str(out, "\n\n");
        push_str(out, lines.as_str());
    }
    assert(out@ =~= old(out)@ + block(label@, lines@));
}

/// Appends the line of one commit: its description, scope and abbreviated sha.
#[verifier::rlimit(40)]
pub fn format_commit_line(output: &mut String, commit: &ConventionalCommit, repo_url: &Option<String>)
    ensures
        final(output)@ == old(output)@ + commit_line(*commit, opt_text(*repo_url)),
{
    let sha = chars_of(commit.sha.as_str());
    let short_len = if sha.len() <= 7 { sha.len() } else { 7 };
    let short = string_of_range(&sha, 0, short_len);
    assert(short@ == short_sha(commit.sha@)) by {
        if sha@.len() <= 7 {
            assert(sha@.subrange(0, sha@.len() as int) =~= sha@);
        }
    }
    push_str(output, "- ");
    match &commit.scope {
        Some(s) => {
            push_str(output, "**");
            push_str(output, s.as_str());
            push_str(output, "**: ");
        },
        None => {},
    }
    push_str(output, commit.description.as_str());
    push_str(output, " (");
    match repo_url {
        Some(url) => {
            push_str(output, "[");
            push_str(output, short.as_str());
            push_str(output, "](");
            push_str(output, url.as_str());
            push_str(output, "/commit/");
            push_str(output, commit.sha.as_str());
            push_str(output, ")");
        },
        None => {
            push_str(output, short.as_str());
        },
    }
    push_str(output, ")\n");
    assert(output@ =~= old(output)@ + commit_line(*commit, opt_text(*repo_url)));
}

fn push_contributors(out: &mut String, e: &ChangelogEntry)
    ensures
        final(out)@ == old(out)@ + contributors_text(*e),
{
    let ghost start = out@;
    let authors = sorted_authors(&e.commits);
    if authors.len() > 0 {
        push_str(out, "\n### Contributors\n\n");
        let ghost head = out@;
        let mut k: usize = 0;
        while k < authors.len()
            invariant
                k <= authors@.len(),
                out@ == head + contributor_lines(e.contributor_map@, views(authors@), k as int),
            decreases authors.len() - k,
        {
            let shown = display_name_exec(&e.contributor_map, authors[k].as_str());
            push_str(out, "- ");
            push_str(out, shown.as_str());
            push_str(out, "\n");
            assert(views(authors@)[k as int] == authors@[k as int]@);
            k = k + 1;
        }
    }
    assert(out@ =~= start + contributors_text(*e));
}

/// How author `a` is shown: the handle `map` gives it, else the name itself.
fn display_name_exec(map: &Vec<(String, String)>, a: &str) -> (r: String)
    ensures
        r@ == display_name(map@, a@),
{
    let mut i: usize = 0;
    while i < map.len()
        invariant
            i <= map@.len(),
            handle_from(map@, a@, i as int) == handle_from(map@, a@, 0),
        decreases map.len() - i,
    {
        if same_text(map[i].0.as_str(), a) {
            return map[i].1.clone();
        }
        i = i + 1;
    }
    copy_str(a)
}

/// The distinct authors of `commits`, in code point order.
fn sorted_authors(commits: &Vec<ConventionalCommit>) -> (r: Vec<String>)
    ensures
        views(r@) == authors_sorted(commits@, commits@.len() as int),
{
    let mut out: Vec<String> = Vec::new();
    let mut i: usize = 0;
    while i < commits.len()
        invariant
            i <= commits@.len(),
            views(out@) == authors_sorted(commits@, i as int),
        decreases commits.len() - i,
    {
        match &commits[i].author {
            Some(a) => insert_sorted_exec(&mut out, a),
            None => {},
        }
        i = i + 1;
    }
    out
}

/// Inserts `a` into `l` as `insert_sorted` does.
pub(crate) fn insert_sorted_exec(l: &mut Vec<String>, a: &String)
    ensures
        views(final(l)@) == insert_sorted(views(old(l)@), a@),
{
    let ghost v = views(l@);
    assert(v.subrange(0, 0) + v.subrange(0, v.len() as int) =~= v);
    let mut i: usize = 0;
    while i < l.len()
        invariant
            i <= l@.len(),
            l@ == old(l)@,
            v == views(l@),
            insert_sorted(v, a@) == v.subrange(0, i as int) + insert_sorted(v.subrange(i as int, v.len() as int), a@),
        decreases l.len() - i,
    {
        let ghost rest = v.subrange(i as int, v.len() as int);
        assert(rest[0] == l@[i as int]@);
        if same_text(l[i].as_str(), a.as_str()) {
            assert(v.subrange(0, i as int) + rest =~= v);
            return;
        }
        if lex_lt_exec(a.as_str(), l[i].as_str()) {
            l.insert(i, a.clone());
            assert(views(l@) =~= v.subrange(0, i as int) + (seq![a@] + rest));
            return;
        }
        assert(rest.drop_first() =~= v.subrange(i + 1, v.len() as int));
        assert(v.subrange(0, i as int) + seq![rest[0]] =~= v.subrange(0, i + 1));
        i = i + 1;
    }
    l.push(a.clone());
    assert(views(l@) =~= v.subrange(0, i as int) + seq![a@]);
}

/// Whether `a` comes strictly before `b` in code point order.
fn lex_lt_exec(a: &str, b: &str) -> (r: bool)
    ensures
        r == lex_lt(a@, b@),
{
    let x = chars_of(a);
    let y = chars_of(b);
    assert(x@.subrange(0, x@.len() as int) =~= x@);
    assert(y@.subrange(0, y@.len() as int) =~= y@);
    let mut k: usize = 0;
    loop
        invariant
            x@ == a@,
            y@ == b@,
            k <= x@.len(),
            k <= y@.len(),
            lex_lt(x@, y@) == lex_lt(x@.subrange(k as int, x@.len() as int), y@.subrange(k as int, y@.len() as int)),
        decreases x@.len() - k,
    {
        let ghost xs = x@.subrange(k as int, x@.len() as int);
        let ghost ys = y@.subrange(k as int, y@.len() as int);
        if k == x.len() {
            assert(xs.len() == 0);
            assert(lex_lt(xs, ys) == (ys.len() > 0));
            return k < y.len();
        }
        if k == y.len() {
            assert(ys.len() == 0 && xs.len() > 0);
            assert(!lex_lt(xs, ys));
            return false;
        }
        assert(xs[0] == x@[k as int] && ys[0] == y@[k as int]);
        if x[k] != y[k] {
            return (x[k] as u32) < (y[k] as u32);
        }
        assert(xs.drop_first() =~= x@.subrange(k + 1, x@.len() as int));
        assert(ys.drop_first() =~= y@.subrange(k + 1, y@.len() as int));
        k = k + 1;
    }
}

/// `s` without trailing white space.
fn trim_end_exec(s: &String) -> (r: String)
    ensures
        r@ == trim_end(s@),
{
    let v = chars_of(s.as_str());
    let mut k = v.len();
    while k > 0 && is_space_exec(v[k - 1])
        invariant
            k <= v@.len(),
            trim_point(v@, k as int) == trim_point(v@, v@.len() as int),
        decreases k,
    {
        k = k - 1;
    }
    string_of_range(&v, 0, k)
}

} // verus!

verus! {

/// A breaking commit is listed in the breaking-changes section and in no type section, and
/// that section stands right after the entry's heading, before every type section.
pub proof fn lemma_breaking_section_first(
    f: DefaultChangelogFormatter,
    e: ChangelogEntry,
    label: Seq<char>,
    k: int,
)
    requires
        0 <= k < e.commits@.len(),
        e.commits@[k].breaking,
    ensures
        belongs(f.types@, e.commits@[k], Group::Breaking, Seq::empty()),
        !belongs(f.types@, e.commits@[k], Group::Section, label),
        !belongs(f.types@, e.commits@[k], Group::Misc, Seq::empty()),
        ({
            let c = e.commits@;
            let repo = opt_text(e.repo_url);
            let t = f.types@;
            let labels = section_labels(t, t.len() as int);
            exists|rest: Seq<char>|
                f.entry_text(e) == "## "@ + e.version@ + " ("@ + e.date@ + ")\n"@ + block(
                    f.breaking_section@,
                    lines_of(c, repo, t, Group::Breaking, Seq::empty(), c.len() as int),
                ) + sections_text(c, repo, t, labels, labels.len() as int) + rest
        }),
{
    let c = e.commits@;
    let repo = opt_text(e.repo_url);
    let t = f.types@;
    let labels = section_labels(t, t.len() as int);
    let rest = block(f.misc_section@, lines_of(c, repo, t, Group::Misc, Seq::empty(), c.len() as int))
        + contributors_text(e) + compare_text(e) + "\n"@;
    assert(f.entry_text(e) =~= "## "@ + e.version@ + " ("@ + e.date@ + ")\n"@ + block(
        f.breaking_section@,
        lines_of(c, repo, t, Group::Breaking, Seq::empty(), c.len() as int),
    ) + sections_text(c, repo, t, labels, labels.len() as int) + rest);
}

} // verus!
