use vstd::prelude::*;

use crate::commit::{find_char, find_char_exec};
use crate::error::ReleaseError;
use crate::text::{chars_of, copy_str, decimal, decimal_text, push_str, same_text, string_of_range};

verus! {

/// The GitHub release host of one repository, on github.com or an Enterprise server.
pub struct GitHubProvider {
    pub owner: String,
    pub repo: String,
    pub hostname: String,
    pub token: String,
}

impl GitHubProvider {
    pub fn new(owner: String, repo: String, hostname: String, token: String) -> (r: Self)
        ensures
            r.owner == owner,
            r.repo == repo,
            r.hostname == hostname,
            r.token == token,
    {
        GitHubProvider { owner, repo, hostname, token }
    }

    pub open spec fn base_url_spec(&self) -> Seq<char> {
        "https://"@ + self.hostname@ + "/"@ + self.owner@ + "/"@ + self.repo@
    }

    pub open spec fn api_url_spec(&self) -> Seq<char> {
        if self.hostname@ == "github.com"@ {
            "https://api.github.com"@
        } else {
            "https://"@ + self.hostname@ + "/api/v3"@
        }
    }

    pub open spec fn releases_url_spec(&self) -> Seq<char> {
        self.api_url_spec() + "/repos/"@ + self.owner@ + "/"@ + self.repo@ + "/releases"@
    }

    /// The web URL of the repository.
    pub fn base_url(&self) -> (r: String)
        ensures
            r@ == self.base_url_spec(),
    {
        let mut s = copy_str("https://");
        push_str(&mut s, self.hostname.as_str());
        push_str(&mut s, "/");
        push_str(&mut s, self.owner.as_str());
        push_str(&mut s, "/");
        push_str(&mut s, self.repo.as_str());
        s
    }

    /// The REST API root: `https://api.github.com` for github.com, else `https://{host}/api/v3`.
    pub fn api_url(&self) -> (r: String)
        ensures
            r@ == self.api_url_spec(),
    {
        if same_text(self.hostname.as_str(), "github.com") {
            copy_str("https://api.github.com")
        } else {
            let mut s = copy_str("https://");
            push_str(&mut s, self.hostname.as_str());
            push_str(&mut s, "/api/v3");
            s
        }
    }

    /// The API URL of the repository's releases.
    pub fn releases_url(&self) -> (r: String)
        ensures
            r@ == self.releases_url_spec(),
    {
        let mut s = self.api_url();
        push_str(&mut s, "/repos/");
        push_str(&mut s, self.owner.as_str());
        push_str(&mut s, "/");
        push_str(&mut s, self.repo.as_str());
        push_str(&mut s, "/releases");
        s
    }

    /// The API URL of the release of `tag`.
    pub fn release_by_tag_url(&self, tag: &str) -> (r: String)
        ensures
            r@ == self.releases_url_spec() + "/tags/"@ + tag@,
    {
        let mut s = self.releases_url();
        push_str(&mut s, "/tags/");
        push_str(&mut s, tag);
        s
    }

    /// The API URL of the release with id `id`.
    pub fn release_url(&self, id: u64) -> (r: String)
        ensures
            r@ == self.releases_url_spec() + "/"@ + decimal(id as nat),
    {
        let mut s = self.releases_url();
        push_str(&mut s, "/");
        let d = decimal_text(id);
        push_str(&mut s, d.as_str());
        s
    }

    /// The value of the `Authorization` header.
    pub fn authorization(&self) -> (r: String)
        ensures
            r@ == "Bearer "@ + self.token@,
    {
        let mut s = copy_str("Bearer ");
        push_str(&mut s, self.token.as_str());
        s
    }

    /// The web URL comparing two refs.
    pub fn compare_url(&self, base: &str, head: &str) -> (r: Result<String, ReleaseError>)
        ensures
            r matches Ok(s) && s@ == self.base_url_spec() + "/compare/"@ + base@ + "..."@ + head@,
    {
        let mut s = self.base_url();
        push_str(&mut s, "/compare/");
        push_str(&mut s, base);
        push_str(&mut s, "...");
        push_str(&mut s, head);
        Ok(s)
    }

    /// The base URL of the repository, used for commit links.
    pub fn repo_url(&self) -> (r: Option<String>)
        ensures
            r matches Some(s) && s@ == self.base_url_spec(),
    {
        Some(self.base_url())
    }
}

/// The upload URL of a release without its `{?name,label}` template suffix.
pub open spec fn upload_base_spec(u: Seq<char>) -> Seq<char> {
    u.subrange(0, find_char(u, '{', 0))
}

/// The URL that uploads the asset `file_name` to the release whose upload URL is `upload_url`.
pub fn asset_upload_url(upload_url: &str, file_name: &str) -> (r: String)
    ensures
        r@ == upload_base_spec(upload_url@) + "?name="@ + file_name@,
{
    let u = chars_of(upload_url);
    let end = find_char_exec(&u, '{', 0);
    let mut s = string_of_range(&u, 0, end);
    push_str(&mut s, "?name=");
    push_str(&mut s, file_name);
    s
}

} // verus!
