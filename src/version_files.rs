use vstd::prelude::*;

use crate::commit::{find_char, find_char_exec, is_space, space_end, space_end_exec};
use crate::error::ReleaseError;
use crate::text::{chars_of, copy_str, has_at, has_at_spec, push_str, same_text, string_of_range};
use crate::changelog::views;

verus! {

/// The text that toml_edit prints after parsing `text` and setting the item at the key path
/// `keys` to the string `value`; `None` when `text` is no TOML document or holds no item there.
pub uninterp spec fn toml_with_value(text: Seq<char>, keys: Seq<Seq<char>>, value: Seq<char>) -> Option<Seq<char>>;

/// The pretty-printed JSON that serde_json gives after parsing `text` and setting the top-level
/// key `key` to the string `value`; `None` when `text` is no JSON object.
pub uninterp spec fn json_with_value(text: Seq<char>, key: Seq<char>, value: Seq<char>) -> Option<Seq<char>>;

/// Relies on toml_edit: `DocumentMut`'s `FromStr`, `Item::get` along the key path (which
/// finds existing items only), indexing by key and `toml_edit::value` to replace the item,
/// and `DocumentMut`'s `Display`, which keeps the rest of the document's formatting.
#[verifier::external_body]
fn toml_set(text: &str, keys: &Vec<String>, value: &str) -> (r: Option<String>)
    ensures
        opt_view(r) == toml_with_value(text@, views(keys@), value@),
{
    let mut doc: toml_edit::DocumentMut = text.parse().ok()?;
    let mut found = doc.as_item();
    for key in keys.iter() {
        found = found.get(key.as_str())?;
    }
    let mut item = doc.as_item_mut();
    for key in keys.iter() {
        item = &mut item[key.as_str()];
    }
    *item = toml_edit::value(value);
    Some(doc.to_string())
}

/// Relies on serde_json: `from_str` into a `Value`, `as_object_mut`, `Map::insert` of a string
/// value, and `to_string_pretty`.
#[verifier::external_body]
fn json_set(text: &str, key: &str, value: &str) -> (r: Option<String>)
    ensures
        opt_view(r) == json_with_value(text@, key@, value@),
{
    let mut v: serde_json::Value = serde_json::from_str(text).ok()?;
    v.as_object_mut()?.insert(key.to_string(), serde_json::Value::String(value.to_string()));
    serde_json::to_string_pretty(&v).ok()
}

/// The characters of an optional string.
pub open spec fn opt_view(o: Option<String>) -> Option<Seq<char>> {
    match o {
        Some(s) => Some(s@),
        None => None,
    }
}

/// The text formats of the version patterns that are located by scanning.
#[derive(Debug, Clone, Copy, PartialEq, Eq, Structural)]
pub enum Pattern {
    /// `<version>…</version>`
    Pom,
    /// `version = "…"` or `version = '…'`
    Gradle,
    /// `var Version = "…"`, `const Version string = "…"` and the like
    Go,
}

pub open spec fn is_quote(c: char) -> bool {
    c == '"' || c == '\''
}

/// Index of the first quote character at or after `i`, or `m.len()`.
pub open spec fn find_quote(m: Seq<char>, i: int) -> int
    decreases m.len() - i,
{
    if i >= m.len() {
        m.len() as int
    } else if 0 <= i && is_quote(m[i]) {
        i
    } else {
        find_quote(m, i + 1)
    }
}

/// Span of the version value when pattern `p` matches at index `i` of `m`.
pub open spec fn span_at(p: Pattern, m: Seq<char>, i: int) -> Option<(int, int)> {
    match p {
        Pattern::Pom => {
            let v = i + "<version>"@.len();
            let c = find_char(m, '<', v);
            if has_at_spec(m, i, "<version>"@) && has_at_spec(m, c, "</version>"@) {
                Some((v, c))
            } else {
                None
            }
        },
        Pattern::Gradle => {
            let a = space_end(m, i + "version"@.len());
            let b = space_end(m, a + 1);
            let c = find_quote(m, b + 1);
            if has_at_spec(m, i, "version"@) && a < m.len() && m[a] == '=' && b < m.len()
                && is_quote(m[b]) && c < m.len() {
                Some((b + 1, c))
            } else {
                None
            }
        },
        Pattern::Go => {
            let kw = if has_at_spec(m, i, "var"@) {
                i + "var"@.len()
            } else {
                i + "const"@.len()
            };
            let s1 = space_end(m, kw);
            let a = space_end(m, s1 + "Version"@.len());
            let a2 = if has_at_spec(m, a, "string"@) {
                space_end(m, a + "string"@.len())
            } else {
                a
            };
            let b = space_end(m, a2 + 1);
            let c = find_char(m, '"', b + 1);
            if (has_at_spec(m, i, "var"@) || has_at_spec(m, i, "const"@)) && s1 > kw && has_at_spec(
                m,
                s1,
                "Version"@,
            ) && a2 < m.len() && m[a2] == '=' && b < m.len() && m[b] == '"' && c < m.len() {
                Some((b + 1, c))
            } else {
                None
            }
        },
    }
}

/// The value span of the leftmost match of `p` at or after `i`.
pub open spec fn first_span(p: Pattern, m: Seq<char>, i: int) -> Option<(int, int)>
    decreases m.len() - i,
{
    if i < 0 || i >= m.len() {
        None
    } else {
        match span_at(p, m, i) {
            Some(s) => Some(s),
            None => first_span(p, m, i + 1),
        }
    }
}

/// Index of the first occurrence of `pat` at or after `i`, or `m.len()`.
pub open spec fn find_seq(m: Seq<char>, pat: Seq<char>, i: int) -> int
    decreases m.len() - i,
{
    if i < 0 || i >= m.len() {
        m.len() as int
    } else if has_at_spec(m, i, pat) {
        i
    } else {
        find_seq(m, pat, i + 1)
    }
}

/// Where the search for the project's `<version>` starts: after the first `</parent>`, else
/// after the first `</modelVersion>`, else at the beginning.
pub open spec fn pom_start(m: Seq<char>) -> int {
    let p = find_seq(m, "</parent>"@, 0);
    let q = find_seq(m, "</modelVersion>"@, 0);
    if p < m.len() {
        p + "</parent>"@.len()
    } else if q < m.len() {
        q + "</modelVersion>"@.len()
    } else {
        0
    }
}

/// `m` with the span `(a, b)` replaced by `v`.
pub open spec fn replace_span(m: Seq<char>, s: (int, int), v: Seq<char>) -> Seq<char> {
    m.subrange(0, s.0) + v + m.subrange(s.1, m.len() as int)
}

/// The text after rewriting the first value located by `p` from `start`, if there is one.
pub open spec fn scanned_bump(p: Pattern, m: Seq<char>, start: int, v: Seq<char>) -> Option<Seq<char>> {
    match first_span(p, m, start) {
        Some(s) => Some(replace_span(m, s, v)),
        None => None,
    }
}

fn find_quote_exec(m: &Vec<char>, i: usize) -> (r: usize)
    requires
        i <= m@.len(),
    ensures
        r == find_quote(m@, i as int),
        i <= r <= m@.len(),
{
    let mut j = i;
    while j < m.len() && !(m[j] == '"' || m[j] == '\'')
        invariant
            i <= j <= m@.len(),
            find_quote(m@, j as int) == find_quote(m@, i as int),
        decreases m.len() - j,
    {
        j = j + 1;
    }
    j
}

fn find_seq_exec(m: &Vec<char>, pat: &Vec<char>) -> (r: usize)
    ensures
        r == find_seq(m@, pat@, 0),
        r <= m@.len(),
{
    let mut j: usize = 0;
    while j < m.len() && !has_at(m, j, pat)
        invariant
            j <= m@.len(),
            find_seq(m@, pat@, j as int) == find_seq(m@, pat@, 0),
        decreases m.len() - j,
    {
        j = j + 1;
    }
    j
}

/// The literal patterns, as characters.
struct Literals {
    version_open: Vec<char>,
    version_close: Vec<char>,
    version_word: Vec<char>,
    var_word: Vec<char>,
    const_word: Vec<char>,
    version_ident: Vec<char>,
    string_word: Vec<char>,
}

impl Literals {
    spec fn ok(&self) -> bool {
        &&& self.version_open@ == "<version>"@
        &&& self.version_close@ == "</version>"@
        &&& self.version_word@ == "version"@
        &&& self.var_word@ == "var"@
        &&& self.const_word@ == "const"@
        &&& self.version_ident@ == "Version"@
        &&& self.string_word@ == "string"@
    }

    fn new() -> (r: Literals)
        ensures
            r.ok(),
    {
        Literals {
            version_open: chars_of("<version>"),
            version_close: chars_of("</version>"),
            version_word: chars_of("version"),
            var_word: chars_of("var"),
            const_word: chars_of("const"),
            version_ident: chars_of("Version"),
            string_word: chars_of("string"),
        }
    }
}

fn span_at_exec(lit: &Literals, p: Pattern, m: &Vec<char>, i: usize) -> (r: Option<(usize, usize)>)
    requires
        lit.ok(),
        i < m@.len(),
    ensures
        match r {
            Some(s) => span_at(p, m@, i as int) == Some((s.0 as int, s.1 as int)) && s.0 <= s.1
                <= m@.len(),
            None => span_at(p, m@, i as int) is None,
        },
{
    let n = m.len();
    match p {
        Pattern::Pom => {
            if !has_at(m, i, &lit.version_open) {
                return None;
            }
            let v = i + lit.version_open.len();
            let c = find_char_exec(m, '<', v);
            if has_at(m, c, &lit.version_close) {
                Some((v, c))
            } else {
                None
            }
        },
        Pattern::Gradle => {
            if !has_at(m, i, &lit.version_word) {
                return None;
            }
            let a = space_end_exec(m, i + lit.version_word.len());
            if !(a < n && m[a] == '=') {
                return None;
            }
            let b = space_end_exec(m, a + 1);
            if !(b < n && (m[b] == '"' || m[b] == '\'')) {
                return None;
            }
            let c = find_quote_exec(m, b + 1);
            if c < n {
                Some((b + 1, c))
            } else {
                None
            }
        },
        Pattern::Go => {
            let is_var = has_at(m, i, &lit.var_word);
            let is_const = has_at(m, i, &lit.const_word);
            if !(is_var || is_const) {
                return None;
            }
            let kw = if is_var { i + lit.var_word.len() } else { i + lit.const_word.len() };
            let s1 = space_end_exec(m, kw);
            if !(s1 > kw && has_at(m, s1, &lit.version_ident)) {
                return None;
            }
            let a = space_end_exec(m, s1 + lit.version_ident.len());
            let a2 = if has_at(m, a, &lit.string_word) {
                space_end_exec(m, a + lit.string_word.len())
            } else {
                a
            };
            if !(a2 < n && m[a2] == '=') {
                return None;
            }
            let b = space_end_exec(m, a2 + 1);
            if !(b < n && m[b] == '"') {
                return None;
            }
            let c = find_char_exec(m, '"', b + 1);
            if c < n {
                Some((b + 1, c))
            } else {
                None
            }
        },
    }
}

fn first_span_exec(lit: &Literals, p: Pattern, m: &Vec<char>, start: usize) -> (r: Option<(usize, usize)>)
    requires
        lit.ok(),
    ensures
        match r {
            Some(s) => first_span(p, m@, start as int) == Some((s.0 as int, s.1 as int)) && s.0
                <= s.1 <= m@.len(),
            None => first_span(p, m@, start as int) is None,
        },
{
    let mut i = start;
    while i < m.len()
        invariant
            lit.ok(),
            start <= i,
            first_span(p, m@, i as int) == first_span(p, m@, start as int),
        decreases m.len() - i,
    {
        match span_at_exec(lit, p, m, i) {
            Some(s) => {
                return Some(s);
            },
            None => {},
        }
        i = i + 1;
    }
    None
}

/// Rewrites the first value that `p` locates at or after `start`.
fn scan_and_replace(lit: &Literals, p: Pattern, m: &Vec<char>, start: usize, v: &str) -> (r: Option<String>)
    requires
        lit.ok(),
    ensures
        opt_view(r) == scanned_bump(p, m@, start as int, v@),
{
    match first_span_exec(lit, p, m, start) {
        Some(s) => {
            let mut out = string_of_range(m, 0, s.0);
            push_str(&mut out, v);
            let tail = string_of_range(m, s.1, m.len());
            push_str(&mut out, tail.as_str());
            Some(out)
        },
        None => None,
    }
}

/// The kinds of version file, told apart by file name.
#[derive(Debug, Clone, Copy, PartialEq, Eq, Structural)]
pub enum FileKind {
    Cargo,
    PackageJson,
    Pyproject,
    Pom,
    Gradle,
    Go,
    Unsupported,
}

/// Index of the last `/` before `k`, or `-1`.
pub open spec fn last_slash(p: Seq<char>, k: int) -> int
    decreases k,
{
    if k <= 0 {
        -1
    } else if p[k - 1] == '/' {
        k - 1
    } else {
        last_slash(p, k - 1)
    }
}

/// The last component of a `/`-separated path.
pub open spec fn file_name_of(p: Seq<char>) -> Seq<char> {
    p.subrange(last_slash(p, p.len() as int) + 1, p.len() as int)
}

/// The kind of version file that the file name `name` denotes.
pub open spec fn kind_of(name: Seq<char>) -> FileKind {
    if name == "Cargo.toml"@ {
        FileKind::Cargo
    } else if name == "package.json"@ {
        FileKind::PackageJson
    } else if name == "pyproject.toml"@ {
        FileKind::Pyproject
    } else if name == "pom.xml"@ {
        FileKind::Pom
    } else if name == "build.gradle"@ || name == "build.gradle.kts"@ {
        FileKind::Gradle
    } else if name.len() >= 3 && name.subrange(name.len() - 3, name.len() as int) == ".go"@ {
        FileKind::Go
    } else {
        FileKind::Unsupported
    }
}

/// The contents of a version file of kind `k` after setting its version to `v`, or `None`
/// when the file is unsupported or its version location is absent.
pub open spec fn bumped_contents(k: FileKind, m: Seq<char>, v: Seq<char>) -> Option<Seq<char>> {
    match k {
        FileKind::Cargo => match toml_with_value(m, seq!["package"@, "version"@], v) {
            Some(t) => Some(t),
            None => toml_with_value(m, seq!["workspace"@, "package"@, "version"@], v),
        },
        FileKind::Pyproject => match toml_with_value(m, seq!["project"@, "version"@], v) {
            Some(t) => Some(t),
            None => toml_with_value(m, seq!["tool"@, "poetry"@, "version"@], v),
        },
        FileKind::PackageJson => match json_with_value(m, "version"@, v) {
            Some(t) => Some(t + "\n"@),
            None => None,
        },
        FileKind::Pom => scanned_bump(Pattern::Pom, m, pom_start(m), v),
        FileKind::Gradle => scanned_bump(Pattern::Gradle, m, 0, v),
        FileKind::Go => scanned_bump(Pattern::Go, m, 0, v),
        FileKind::Unsupported => None,
    }
}

/// The file name of `path`: what follows its last `/`.
pub fn file_name(path: &str) -> (r: String)
    ensures
        r@ == file_name_of(path@),
{
    let p = chars_of(path);
    let mut k = p.len();
    while k > 0 && p[k - 1] != '/'
        invariant
            k <= p@.len(),
            last_slash(p@, k as int) == last_slash(p@, p@.len() as int),
        decreases k,
    {
        k = k - 1;
    }
    string_of_range(&p, k, p.len())
}

/// The kind of version file that `path` names.
pub fn file_kind(path: &str) -> (r: FileKind)
    ensures
        r == kind_of(file_name_of(path@)),
{
    let name = file_name(path);
    let s = name.as_str();
    if same_text(s, "Cargo.toml") {
        FileKind::Cargo
    } else if same_text(s, "package.json") {
        FileKind::PackageJson
    } else if same_text(s, "pyproject.toml") {
        FileKind::Pyproject
    } else if same_text(s, "pom.xml") {
        FileKind::Pom
    } else if same_text(s, "build.gradle") || same_text(s, "build.gradle.kts") {
        FileKind::Gradle
    } else {
        let v = chars_of(s);
        let suffix = chars_of(".go");
        proof {
            reveal_strlit(".go");
        }
        if v.len() >= 3 && has_at(&v, v.len() - 3, &suffix) {
            FileKind::Go
        } else {
            FileKind::Unsupported
        }
    }
}

/// Whether `path` names a file whose version this library can rewrite.
pub fn is_supported_version_file(path: &str) -> (r: bool)
    ensures
        r == (kind_of(file_name_of(path@)) != FileKind::Unsupported),
{
    let k = file_kind(path);
    match k {
        FileKind::Unsupported => false,
        _ => true,
    }
}

fn key_path(a: &str, b: &str) -> (r: Vec<String>)
    ensures
        views(r@) == seq![a@, b@],
{
    let mut v: Vec<String> = Vec::new();
    v.push(copy_str(a));
    v.push(copy_str(b));
    assert(views(v@) =~= seq![a@, b@]);
    v
}

fn key_path3(a: &str, b: &str, c: &str) -> (r: Vec<String>)
    ensures
        views(r@) == seq![a@, b@, c@],
{
    let mut v: Vec<String> = Vec::new();
    v.push(copy_str(a));
    v.push(copy_str(b));
    v.push(copy_str(c));
    assert(views(v@) =~= seq![a@, b@, c@]);
    v
}

/// The version value at the first of two TOML key paths that exists, set to `v`.
fn toml_first_of(contents: &str, first: &Vec<String>, second: &Vec<String>, v: &str) -> (r: Option<String>)
    ensures
        opt_view(r) == match toml_with_value(contents@, views(first@), v@) {
            Some(t) => Some(t),
            None => toml_with_value(contents@, views(second@), v@),
        },
{
    match toml_set(contents, first, v) {
        Some(t) => Some(t),
        None => toml_set(contents, second, v),
    }
}

/// The error for a file whose version cannot be rewritten.
fn bump_error(path: &str, unsupported: bool) -> (r: ReleaseError)
    ensures
        r is VersionBump,
{
    let mut s = String::new();
    if unsupported {
        push_str(&mut s, "unsupported version file: ");
    } else {
        push_str(&mut s, "no version field found in ");
    }
    push_str(&mut s, path);
    ReleaseError::VersionBump(s)
}

/// The contents of the version file `path` after setting its version to `new_version`.
///
/// The format is told by the file name: `Cargo.toml` (`package.version`, else
/// `workspace.package.version`), `package.json` (top-level `version`), `pyproject.toml`
/// (`project.version`, else `tool.poetry.version`), `pom.xml` (the first `<version>` after the
/// `<parent>` block, else after `<modelVersion>`), `build.gradle` and `build.gradle.kts`
/// (`version = "…"` or `version = '…'`) and `*.go` (`var`/`const Version [string] = "…"`).
/// Only the version value changes in the scanned formats.
pub fn bump_version_file(path: &str, contents: &str, new_version: &str) -> (r: Result<String, ReleaseError>)
    ensures
        r is Ok <==> bumped_contents(kind_of(file_name_of(path@)), contents@, new_version@) is Some,
        r matches Ok(t) ==> Some(t@) == bumped_contents(kind_of(file_name_of(path@)), contents@, new_version@),
        r matches Err(e) ==> e is VersionBump,
{
    let kind = file_kind(path);
    let lit = Literals::new();
    let out = match kind {
        FileKind::Cargo => {
            let a = key_path("package", "version");
            let b = key_path3("workspace", "package", "version");
            toml_first_of(contents, &a, &b, new_version)
        },
        FileKind::Pyproject => {
            let a = key_path("project", "version");
            let b = key_path3("tool", "poetry", "version");
            toml_first_of(contents, &a, &b, new_version)
        },
        FileKind::PackageJson => match json_set(contents, "version", new_version) {
            Some(t) => {
                let mut t = t;
                push_str(&mut t, "\n");
                Some(t)
            },
            None => None,
        },
        FileKind::Pom => {
            let m = chars_of(contents);
            let start = pom_start_exec(&m);
            scan_and_replace(&lit, Pattern::Pom, &m, start, new_version)
        },
        FileKind::Gradle => {
            let m = chars_of(contents);
            scan_and_replace(&lit, Pattern::Gradle, &m, 0, new_version)
        },
        FileKind::Go => {
            let m = chars_of(contents);
            scan_and_replace(&lit, Pattern::Go, &m, 0, new_version)
        },
        FileKind::Unsupported => None,
    };
    match out {
        Some(t) => Ok(t),
        None => Err(bump_error(path, kind == FileKind::Unsupported)),
    }
}

fn pom_start_exec(m: &Vec<char>) -> (r: usize)
    ensures
        r == pom_start(m@),
{
    let parent = chars_of("</parent>");
    let model = chars_of("</modelVersion>");
    let p = find_seq_exec(m, &parent);
    if p < m.len() {
        proof {
            reveal_strlit("</parent>");
        }
        assert(has_at_spec(m@, p as int, parent@)) by {
            lemma_find_seq_found(m@, parent@, 0);
        }
        return p + parent.len();
    }
    let q = find_seq_exec(m, &model);
    if q < m.len() {
        assert(has_at_spec(m@, q as int, model@)) by {
            lemma_find_seq_found(m@, model@, 0);
        }
        return q + model.len();
    }
    0
}

proof fn lemma_find_seq_found(m: Seq<char>, pat: Seq<char>, i: int)
    requires
        0 <= i,
    ensures
        find_seq(m, pat, i) < m.len() ==> has_at_spec(m, find_seq(m, pat, i), pat),
    decreases m.len() - i,
{
    if i < m.len() && !has_at_spec(m, i, pat) {
        lemma_find_seq_found(m, pat, i + 1);
    }
}

} // verus!

verus! {

proof fn lemma_find_char_at_least(m: Seq<char>, c: char, i: int)
    requires
        0 <= i,
    ensures
        i <= find_char(m, c, i) || find_char(m, c, i) == m.len(),
    decreases m.len() - i,
{
    if i < m.len() && m[i] != c {
        lemma_find_char_at_least(m, c, i + 1);
    }
}

proof fn lemma_first_pom_span_after(m: Seq<char>, i: int)
    requires
        0 <= i,
    ensures
        first_span(Pattern::Pom, m, i) matches Some(s) ==> i <= s.0 <= s.1 <= m.len(),
    decreases m.len() - i,
{
    if 0 <= i < m.len() {
        let v = i + "<version>"@.len();
        lemma_find_char_at_least(m, '<', v);
        if span_at(Pattern::Pom, m, i) is None {
            lemma_first_pom_span_after(m, i + 1);
        }
    }
}

/// In a `pom.xml` with a `</parent>` tag, everything up to the end of the first `</parent>`
/// (the parent block with its version) is kept as it is; only the value of the first
/// `<version>` element after it is replaced.
pub proof fn lemma_pom_keeps_parent(m: Seq<char>, v: Seq<char>)
    requires
        find_seq(m, "</parent>"@, 0) < m.len(),
        bumped_contents(FileKind::Pom, m, v) is Some,
    ensures
        ({
            let end = find_seq(m, "</parent>"@, 0) + "</parent>"@.len();
            let r = bumped_contents(FileKind::Pom, m, v)->0;
            &&& end <= m.len()
            &&& r.subrange(0, end) == m.subrange(0, end)
            &&& exists|a: int, b: int|
                end <= a <= b <= m.len() && r == m.subrange(0, a) + v + m.subrange(b, m.len() as int)
        }),
{
    let p = find_seq(m, "</parent>"@, 0);
    lemma_find_seq_found(m, "</parent>"@, 0);
    let end = p + "</parent>"@.len();
    lemma_first_pom_span_after(m, end);
    let s = first_span(Pattern::Pom, m, end)->0;
    let r = bumped_contents(FileKind::Pom, m, v)->0;
    assert(r == m.subrange(0, s.0) + v + m.subrange(s.1, m.len() as int));
    assert(r.subrange(0, end) =~= m.subrange(0, end));
}

} // verus!
