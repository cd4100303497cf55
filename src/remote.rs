use base64::Engine;
use vstd::prelude::*;

use crate::changelog::{trim_point, views};
use crate::commit::{Commit, find_char, find_char_exec, is_space, is_space_exec, opt_text, space_end, space_end_exec};
use crate::error::ReleaseError;
use crate::text::{chars_of, copy_str, has_at, has_at_spec, push_char, push_str, same_text, string_of, string_of_range};

verus! {

/// `s` with every trailing `.git` removed.
pub open spec fn strip_git(s: Seq<char>) -> Seq<char>
    decreases s.len(),
{
    if s.len() >= 4 && s.subrange(s.len() - 4, s.len() as int) == ".git"@ {
        strip_git(s.subrange(0, s.len() - 4))
    } else {
        s
    }
}

/// `s` split around its first `c`.
pub open spec fn split_first(s: Seq<char>, c: char) -> Option<(Seq<char>, Seq<char>)> {
    let i = find_char(s, c, 0);
    if i < s.len() {
        Some((s.subrange(0, i), s.subrange(i + 1, s.len() as int)))
    } else {
        None
    }
}

/// Index of the last `c` before `k`, or `-1`.
pub open spec fn last_index(s: Seq<char>, c: char, k: int) -> int
    decreases k,
{
    if k <= 0 {
        -1
    } else if s[k - 1] == c {
        k - 1
    } else {
        last_index(s, c, k - 1)
    }
}

/// What follows the last `@` of `s`, or all of `s`.
pub open spec fn after_last_at(s: Seq<char>) -> Seq<char> {
    s.subrange(last_index(s, '@', s.len() as int) + 1, s.len() as int)
}

/// `(hostname, owner, repo)` of a remote URL: `https://host/owner/repo` or `http://…`, else
/// `[user@]host:owner/repo`; trailing `.git` suffixes are ignored.
pub open spec fn remote_parts(url: Seq<char>) -> Option<(Seq<char>, Seq<char>, Seq<char>)> {
    let t = strip_git(url);
    let https = "https://"@;
    let http = "http://"@;
    if has_at_spec(t, 0, https) || has_at_spec(t, 0, http) {
        let rest = if has_at_spec(t, 0, https) {
            t.subrange(https.len() as int, t.len() as int)
        } else {
            t.subrange(http.len() as int, t.len() as int)
        };
        match split_first(rest, '/') {
            Some((host, path)) => match split_first(path, '/') {
                Some((owner, repo)) => Some((host, owner, repo)),
                None => None,
            },
            None => None,
        }
    } else {
        match split_first(t, ':') {
            Some((host_part, path)) => match split_first(path, '/') {
                Some((owner, repo)) => Some((after_last_at(host_part), owner, repo)),
                None => None,
            },
            None => None,
        }
    }
}

fn prefix_chars(m: &Vec<char>, k: usize) -> (r: Vec<char>)
    requires
        k <= m@.len(),
    ensures
        r@ == m@.subrange(0, k as int),
{
    let mut out: Vec<char> = Vec::new();
    let mut i: usize = 0;
    while i < k
        invariant
            i <= k <= m@.len(),
            out@ == m@.subrange(0, i as int),
        decreases k - i,
    {
        out.push(m[i]);
        assert(out@ =~= m@.subrange(0, i + 1));
        i = i + 1;
    }
    out
}

fn split_first_exec(s: &Vec<char>, c: char) -> (r: Option<(Vec<char>, Vec<char>)>)
    ensures
        match r {
            Some((a, b)) => split_first(s@, c) == Some((a@, b@)),
            None => split_first(s@, c) is None,
        },
{
    let i = find_char_exec(s, c, 0);
    if i < s.len() {
        let a = chars_of(string_of_range(s, 0, i).as_str());
        let b = chars_of(string_of_range(s, i + 1, s.len()).as_str());
        Some((a, b))
    } else {
        None
    }
}

fn remote_error(url: &str) -> (r: ReleaseError)
    ensures
        r is Git,
{
    let mut s = copy_str("cannot parse remote URL: ");
    push_str(&mut s, url);
    ReleaseError::Git(s)
}

/// Extract `(hostname, owner, repo)` from a git remote URL.
/// Supports SSH (`git@hostname:owner/repo.git`) and HTTPS (`https://hostname/owner/repo.git`).
pub fn parse_remote_url(url: &str) -> (r: Result<(String, String, String), ReleaseError>)
    ensures
        r is Ok <==> remote_parts(url@) is Some,
        r matches Ok(p) ==> remote_parts(url@) == Some((p.0@, p.1@, p.2@)),
        r matches Err(e) ==> e is Git,
{
    let m = chars_of(url);
    let suffix = chars_of(".git");
    proof {
        reveal_strlit(".git");
    }
    let mut k = m.len();
    assert(m@.subrange(0, m@.len() as int) =~= m@);
    assert(".git"@.len() == 4);
    while k >= 4 && has_at(&m, k - 4, &suffix)
        invariant
            k <= m@.len(),
            suffix@ == ".git"@,
            suffix@.len() == 4,
            strip_git(m@.subrange(0, k as int)) == strip_git(m@),
        decreases k,
    {
        assert(m@.subrange(0, k as int).subrange(k - 4, k as int) =~= m@.subrange(k - 4, k as int));
        assert(m@.subrange(0, k as int).subrange(0, k - 4) =~= m@.subrange(0, k - 4));
        assert(strip_git(m@.subrange(0, k as int)) == strip_git(m@.subrange(0, k - 4)));
        k = k - 4;
    }
    proof {
        assert(m@.subrange(0, m@.len() as int) =~= m@);
        if k >= 4 {
            assert(m@.subrange(0, k as int).subrange(k - 4, k as int) =~= m@.subrange(k - 4, k as int));
        }
    }
    let t = prefix_chars(&m, k);
    let https = chars_of("https://");
    let http = chars_of("http://");
    let secure = has_at(&t, 0, &https);
    if secure || has_at(&t, 0, &http) {
        let skip = if secure { https.len() } else { http.len() };
        let rest = chars_of(string_of_range(&t, skip, t.len()).as_str());
        match split_first_exec(&rest, '/') {
            Some((host, path)) => match split_first_exec(&path, '/') {
                Some((owner, repo)) => Ok((string_of(&host), string_of(&owner), string_of(&repo))),
                None => Err(remote_error(url)),
            },
            None => Err(remote_error(url)),
        }
    } else {
        match split_first_exec(&t, ':') {
            Some((host_part, path)) => match split_first_exec(&path, '/') {
                Some((owner, repo)) => {
                    let mut j = host_part.len();
                    while j > 0 && host_part[j - 1] != '@'
                        invariant
                            j <= host_part@.len(),
                            last_index(host_part@, '@', j as int) == last_index(host_part@, '@', host_part@.len() as int),
                        decreases j,
                    {
                        j = j - 1;
                    }
                    let host = string_of_range(&host_part, j, host_part.len());
                    Ok((host, string_of(&owner), string_of(&repo)))
                },
                None => Err(remote_error(url)),
            },
            None => Err(remote_error(url)),
        }
    }
}

/// Extract `(owner, repo)` from a git remote URL.
pub fn parse_owner_repo(url: &str) -> (r: Result<(String, String), ReleaseError>)
    ensures
        r is Ok <==> remote_parts(url@) is Some,
        r matches Ok(p) ==> remote_parts(url@) matches Some(q) && q.1 == p.0@ && q.2 == p.1@,
        r matches Err(e) ==> e is Git,
{
    match parse_remote_url(url) {
        Ok((_, owner, repo)) => Ok((owner, repo)),
        Err(e) => Err(e),
    }
}

} // verus!

verus! {

pub open spec fn is_hex(c: char) -> bool {
    ('0' as u32 <= c as u32 <= '9' as u32) || ('a' as u32 <= c as u32 <= 'f' as u32) || ('A' as u32
        <= c as u32 <= 'F' as u32)
}

/// A full commit id: forty hexadecimal digits.
pub open spec fn is_sha_line(l: Seq<char>) -> bool {
    l.len() == 40 && forall|i: int| 0 <= i < l.len() ==> is_hex(#[trigger] l[i])
}

/// `s` without leading and trailing white space.
pub open spec fn trimmed(s: Seq<char>) -> Seq<char> {
    let a = space_end(s, 0);
    let b = trim_point(s, s.len() as int);
    if a < b {
        s.subrange(a, b)
    } else {
        Seq::empty()
    }
}

/// `l` without a final carriage return.
pub open spec fn strip_cr(l: Seq<char>) -> Seq<char> {
    if l.len() > 0 && l.last() == '\r' {
        l.drop_last()
    } else {
        l
    }
}

/// The reading of a commit log: the pending sha, the pending message, and the commits read.
pub open spec fn log_line(
    st: (Option<Seq<char>>, Seq<char>, Seq<(Seq<char>, Seq<char>)>),
    line: Seq<char>,
) -> (Option<Seq<char>>, Seq<char>, Seq<(Seq<char>, Seq<char>)>) {
    if line == "--END--"@ {
        match st.0 {
            Some(sha) => (None, Seq::empty(), st.2.push((sha, trimmed(st.1)))),
            None => st,
        }
    } else if st.0 is None && is_sha_line(line) {
        (Some(line), st.1, st.2)
    } else if st.1.len() == 0 {
        (st.0, line, st.2)
    } else {
        (st.0, st.1 + seq!['\n'] + line, st.2)
    }
}

/// The partial line and the reading state after the first `n` characters of `m`.
pub open spec fn log_scan(m: Seq<char>, n: int) -> (Seq<char>, (Option<Seq<char>>, Seq<char>, Seq<(Seq<char>, Seq<char>)>))
    decreases n,
{
    if n <= 0 {
        (Seq::empty(), (None, Seq::empty(), Seq::empty()))
    } else {
        let prev = log_scan(m, n - 1);
        if m[n - 1] == '\n' {
            (Seq::empty(), log_line(prev.1, strip_cr(prev.0)))
        } else {
            (prev.0.push(m[n - 1]), prev.1)
        }
    }
}

/// The `(sha, message)` pairs of a log printed as a sha line, the message lines and an
/// `--END--` line per commit; a last commit without `--END--` is kept too.
pub open spec fn log_commits(m: Seq<char>) -> Seq<(Seq<char>, Seq<char>)> {
    let s = log_scan(m, m.len() as int);
    let st = if s.0.len() > 0 {
        log_line(s.1, s.0)
    } else {
        s.1
    };
    match st.0 {
        Some(sha) => st.2.push((sha, trimmed(st.1))),
        None => st.2,
    }
}

pub open spec fn commit_views(cs: Seq<Commit>) -> Seq<(Seq<char>, Seq<char>)> {
    cs.map_values(|c: Commit| (c.sha@, c.message@))
}

fn is_hex_exec(c: char) -> (r: bool)
    ensures
        r == is_hex(c),
{
    ('0' <= c && c <= '9') || ('a' <= c && c <= 'f') || ('A' <= c && c <= 'F')
}

fn is_sha_line_exec(l: &Vec<char>) -> (r: bool)
    ensures
        r == is_sha_line(l@),
{
    if l.len() != 40 {
        return false;
    }
    let mut i: usize = 0;
    while i < l.len()
        invariant
            i <= l@.len(),
            forall|j: int| 0 <= j < i ==> is_hex(#[trigger] l@[j]),
        decreases l.len() - i,
    {
        if !is_hex_exec(l[i]) {
            return false;
        }
        i = i + 1;
    }
    true
}

/// `s` without leading and trailing white space.
pub fn trim_text(s: &str) -> (r: String)
    ensures
        r@ == trimmed(s@),
{
    let v = chars_of(s);
    let a = space_end_exec(&v, 0);
    let mut b = v.len();
    while b > 0 && is_space_exec(v[b - 1])
        invariant
            b <= v@.len(),
            trim_point(v@, b as int) == trim_point(v@, v@.len() as int),
        decreases b,
    {
        b = b - 1;
    }
    if a < b {
        string_of_range(&v, a, b)
    } else {
        String::new()
    }
}

fn log_line_exec(
    sha: &mut Option<String>,
    msg: &mut String,
    commits: &mut Vec<Commit>,
    line: &Vec<char>,
    marker: &Vec<char>,
)
    requires
        marker@ == "--END--"@,
    ensures
        (opt_text(*final(sha)), final(msg)@, commit_views(final(commits)@)) == log_line(
            (opt_text(*old(sha)), old(msg)@, commit_views(old(commits)@)),
            line@,
        ),
{
    let is_end = line.len() == marker.len() && has_at(line, 0, marker);
    assert(is_end == (line@ == "--END--"@)) by {
        if line@.len() == marker@.len() {
            assert(line@.subrange(0, marker@.len() as int) =~= line@);
        }
    }
    if is_end {
        match sha.take() {
            Some(s) => {
                let message = trim_text(msg.as_str());
                let ghost prev = commits@;
                commits.push(Commit { sha: s, message });
                assert(commit_views(commits@) =~= commit_views(prev).push((s@, trimmed(old(msg)@))));
                *msg = String::new();
            },
            None => {},
        }
    } else if sha.is_none() && is_sha_line_exec(line) {
        *sha = Some(string_of(line));
    } else {
        let l = string_of(line);
        if !msg.as_str().is_empty() {
            push_char(msg, '\n');
        }
        push_str(msg, l.as_str());
        assert(old(msg)@.len() == 0 ==> msg@ =~= line@);
    }
}

/// Parses the output of `git log --format=%H%n%B%n--END--` into commits.
pub fn parse_commit_log(output: &str) -> (r: Vec<Commit>)
    ensures
        commit_views(r@) == log_commits(output@),
{
    let m = chars_of(output);
    let marker = chars_of("--END--");
    let mut cur: Vec<char> = Vec::new();
    let mut sha: Option<String> = None;
    let mut msg = String::new();
    let mut commits: Vec<Commit> = Vec::new();
    let mut i: usize = 0;
    assert(commit_views(commits@) =~= Seq::empty());
    while i < m.len()
        invariant
            i <= m@.len(),
            m@ == output@,
            marker@ == "--END--"@,
            (cur@, (opt_text(sha), msg@, commit_views(commits@))) == log_scan(m@, i as int),
        decreases m.len() - i,
    {
        if m[i] == '\n' {
            let mut line = cur;
            if line.len() > 0 && line[line.len() - 1] == '\r' {
                line.pop();
                assert(line@ =~= strip_cr(cur@));
            }
            log_line_exec(&mut sha, &mut msg, &mut commits, &line, &marker);
            cur = Vec::new();
        } else {
            cur.push(m[i]);
        }
        i = i + 1;
    }
    if cur.len() > 0 {
        log_line_exec(&mut sha, &mut msg, &mut commits, &cur, &marker);
    }
    match sha {
        Some(s) => {
            let message = trim_text(msg.as_str());
            let ghost prev = commits@;
            commits.push(Commit { sha: s, message });
            assert(commit_views(commits@) =~= commit_views(prev).push((s@, trimmed(msg@))));
        },
        None => {},
    }
    commits
}

} // verus!

verus! {

/// The padded standard-alphabet Base64 text of `data`.
pub uninterp spec fn base64_standard(data: Seq<u8>) -> Seq<char>;

/// Relies on base64's `STANDARD` engine `encode`: the padded standard-alphabet Base64 of the
/// bytes, which depends on the bytes alone.
#[verifier::external_body]
fn encode_base64(data: &[u8]) -> (r: String)
    ensures
        r@ == base64_standard(data@),
{
    base64::engine::general_purpose::STANDARD.encode(data)
}

/// The git configuration key of the extra HTTP header for `hostname`.
pub open spec fn extraheader_key_spec(hostname: Seq<char>) -> Seq<char> {
    "http.https://"@ + hostname + "/.extraheader"@
}

/// The git configuration key of the extra HTTP header for `hostname`.
pub fn extraheader_key(hostname: &str) -> (r: String)
    ensures
        r@ == extraheader_key_spec(hostname@),
{
    let mut s = copy_str("http.https://");
    push_str(&mut s, hostname);
    push_str(&mut s, "/.extraheader");
    s
}

/// The header value that authenticates with `token` by HTTP Basic auth.
pub open spec fn auth_header_spec(token: Seq<char>) -> Seq<char> {
    "AUTHORIZATION: basic "@ + base64_standard(vstd::utf8::encode_utf8("x-access-token:"@ + token))
}

/// The header value that authenticates with `token` by HTTP Basic auth.
pub fn auth_header_value(token: &str) -> (r: String)
    ensures
        r@ == auth_header_spec(token@),
{
    let mut credentials = copy_str("x-access-token:");
    push_str(&mut credentials, token);
    let encoded = encode_base64(credentials.as_str().as_bytes());
    let mut s = copy_str("AUTHORIZATION: basic ");
    push_str(&mut s, encoded.as_str());
    s
}

/// Git repository whose commands run through the `git` command line.
pub struct NativeGitRepository {
    pub path: String,
    /// `(hostname, token)` for HTTP Basic auth, scoped to that host.
    pub http_auth: Option<(String, String)>,
}

impl NativeGitRepository {
    /// The repository at `path`, without authentication. This only records the path: the
    /// caller checks that it is a repository by running `rev-parse --git-dir` through it.
    pub fn open(path: &str) -> (r: Self)
        ensures
            r.path@ == path@,
            r.http_auth is None,
    {
        NativeGitRepository { path: copy_str(path), http_auth: None }
    }

    /// Enable HTTP Basic auth for git commands targeting `hostname`.
    pub fn with_http_auth(self, hostname: String, token: String) -> (r: Self)
        ensures
            r.path == self.path,
            r.http_auth matches Some(a) && a.0 == hostname && a.1 == token,
    {
        NativeGitRepository { path: self.path, http_auth: Some((hostname, token)) }
    }

    /// The full argument list of `git` for `args`: the repository path, then the auth header
    /// (first cleared, then set) when auth is enabled, then `args`.
    pub fn command_args(&self, args: &Vec<String>) -> (r: Vec<String>)
        ensures
            views(r@) == seq!["-C"@, self.path@] + match self.http_auth {
                Some(a) => seq![
                    "-c"@,
                    extraheader_key_spec(a.0@) + "="@,
                    "-c"@,
                    extraheader_key_spec(a.0@) + "="@ + auth_header_spec(a.1@),
                ],
                None => Seq::empty(),
            } + views(args@),
    {
        let mut out: Vec<String> = Vec::new();
        out.push(copy_str("-C"));
        out.push(self.path.clone());
        match &self.http_auth {
            Some((host, token)) => {
                let key = extraheader_key(host.as_str());
                let mut clear = key.clone();
                push_str(&mut clear, "=");
                let mut set = key.clone();
                push_str(&mut set, "=");
                let value = auth_header_value(token.as_str());
                push_str(&mut set, value.as_str());
                out.push(copy_str("-c"));
                out.push(clear);
                out.push(copy_str("-c"));
                out.push(set);
            },
            None => {},
        }
        let ghost head = views(out@);
        let mut i: usize = 0;
        while i < args.len()
            invariant
                i <= args@.len(),
                views(out@) == head + views(args@.subrange(0, i as int)),
            decreases args.len() - i,
        {
            let ghost prev = out@;
            let c = args[i].clone();
            out.push(c);
            assert(views(out@) =~= views(prev).push(args@[i as int]@));
            assert(views(args@.subrange(0, i + 1)) =~= views(args@.subrange(0, i as int)).push(args@[i as int]@));
            i = i + 1;
        }
        assert(args@.subrange(0, args@.len() as int) =~= args@);
        assert(views(out@) =~= seq!["-C"@, self.path@] + match self.http_auth {
                Some(a) => seq![
                    "-c"@,
                    extraheader_key_spec(a.0@) + "="@,
                    "-c"@,
                    extraheader_key_spec(a.0@) + "="@ + auth_header_spec(a.1@),
                ],
                None => Seq::empty(),
            } + views(args@));
        out
    }

    /// `(owner, repo)` of the `origin` remote, given its URL.
    pub fn parse_remote(&self, origin_url: &str) -> (r: Result<(String, String), ReleaseError>)
        ensures
            r is Ok <==> remote_parts(origin_url@) is Some,
            r matches Ok(p) ==> remote_parts(origin_url@) matches Some(q) && q.1 == p.0@ && q.2 == p.1@,
    {
        parse_owner_repo(origin_url)
    }

    /// `(hostname, owner, repo)` of the `origin` remote, given its URL.
    pub fn parse_remote_full(&self, origin_url: &str) -> (r: Result<(String, String, String), ReleaseError>)
        ensures
            r is Ok <==> remote_parts(origin_url@) is Some,
            r matches Ok(p) ==> remote_parts(origin_url@) == Some((p.0@, p.1@, p.2@)),
    {
        parse_remote_url(origin_url)
    }
}

} // verus!
