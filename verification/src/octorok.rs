//! The addresses ferium requests from the GitHub API, and which asset of a
//! release it downloads.
use crate::text::{concat, owned, str_eq};
use vstd::prelude::*;

verus! {

/// The address requested: a relative one is under the GitHub API's base.
pub open spec fn request_url_spec(url: Seq<char>, relative: bool) -> Seq<char> {
    if relative {
        "http://api.github.com"@ + url
    } else {
        url
    }
}

/// The address of a request: `url` under the GitHub API's base where it is
/// relative, else `url` itself.
pub fn request_url(url: &str, relative: bool) -> (r: String)
    ensures
        r@ == request_url_spec(url@, relative),
{
    if relative {
        concat("http://api.github.com", url)
    } else {
        owned(url)
    }
}

/// The relative address of the repository `owner`/`repo`.
pub fn repository_path(owner: &str, repo: &str) -> (r: String)
    ensures
        r@ == "/repos/"@ + owner@ + "/"@ + repo@,
{
    let a = concat("/repos/", owner);
    let b = concat(a.as_str(), "/");
    concat(b.as_str(), repo)
}

/// The relative address of the releases of a repository, by its full name.
pub fn releases_path(full_name: &str) -> (r: String)
    ensures
        r@ == "/repos/"@ + full_name@ + "/releases"@,
{
    let a = concat("/repos/", full_name);
    concat(a.as_str(), "/releases")
}

/// The asset of a release that ends up downloaded: the last one that is a
/// JAR file; none where there is none (the release has no JAR asset).
pub open spec fn last_jar(content_types: Seq<Seq<char>>) -> Option<int>
    decreases content_types.len(),
{
    if content_types.len() == 0 {
        None
    } else if content_types.last() == "application/java-archive"@ {
        Some(content_types.len() - 1)
    } else {
        last_jar(content_types.drop_last())
    }
}

/// Which asset of a release is downloaded, by the assets' content types.
pub fn jar_asset(content_types: &Vec<String>) -> (r: Option<usize>)
    ensures
        match last_jar(content_types@.map_values(|c: String| c@)) {
            Some(k) => r == Some(k as usize),
            None => r is None,
        },
{
    let ghost cv = content_types@.map_values(|c: String| c@);
    let mut i: usize = content_types.len();
    assert(cv.take(i as int) =~= cv);
    while i > 0
        invariant
            i <= content_types.len(),
            cv == content_types@.map_values(|c: String| c@),
            last_jar(cv) == last_jar(cv.take(i as int)),
        decreases i,
    {
        assert(cv.take(i as int).drop_last() =~= cv.take(i - 1));
        assert(cv.take(i as int).last() == content_types@[i - 1]@);
        if str_eq(content_types[i - 1].as_str(), "application/java-archive") {
            return Some(i - 1);
        }
        i = i - 1;
    }
    None
}

} // verus!
