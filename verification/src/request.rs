//! What a request path names: repository, entry kind and digest.

use vstd::prelude::*;
use vstd::string::*;
use crate::config::S3Config;
use crate::server_error::ServerError;
use crate::text::{
    free_of, lemma_split_append, lemma_split_nonempty, lemma_split_whole, lemma_trim_all, replace,
    replace_char, split, split_on, starts_with, str_eq, trim, trim_end, trim_end_matches,
    trim_matches, trim_start, views,
};

verus! {

/// The entry that a request asks for.
#[derive(Debug)]
pub struct ProxyRequest {
    pub repo: String,
    /// The entry kind: `ac` or `cas`, or `unknown`.
    pub tpe: String,
    pub digest: String,
}

/// The three texts of a [`ProxyRequest`].
pub struct RequestParts {
    pub repo: Seq<char>,
    pub tpe: Seq<char>,
    pub digest: Seq<char>,
}

impl View for ProxyRequest {
    type V = RequestParts;

    open spec fn view(&self) -> RequestParts {
        RequestParts { repo: self.repo@, tpe: self.tpe@, digest: self.digest@ }
    }
}

/// The parts for a path that names no repository and no kind.
pub open spec fn unknown_parts(digest: Seq<char>) -> RequestParts {
    RequestParts { repo: "unknown"@, tpe: "unknown"@, digest }
}

/// What a request path names, where it names anything.
///
/// The path is read without its leading and trailing slashes:
/// - `repo=<name>/<kind>/<digest>`: the name ends at the first `=` in it, and
///   pieces after the digest are ignored.  With fewer than three pieces the
///   path names nothing.
/// - `ac/<digest>` or `cas/<digest>`, exactly two pieces: repository `unknown`.
/// - the empty path: kind `unknown`, digest `index.html`.
/// - any other: kind `unknown`, the digest is the path with `__` for each `/`.
pub open spec fn parse_path(path: Seq<char>) -> Option<RequestParts> {
    let t = trim(path, '/');
    let el = split(t, '/');
    if "repo="@.is_prefix_of(t) {
        let named = split(t.subrange(5, t.len() as int), '/');
        if named.len() >= 3 {
            Some(RequestParts { repo: split(named[0], '=')[0], tpe: named[1], digest: named[2] })
        } else {
            None
        }
    } else if el.len() == 2 && (el[0] == "ac"@ || el[0] == "cas"@) {
        Some(RequestParts { repo: "unknown"@, tpe: el[0], digest: el[1] })
    } else if t.len() == 0 {
        Some(unknown_parts("index.html"@))
    } else {
        Some(unknown_parts(replace(t, '/', "__"@)))
    }
}

/// The name of the cache entry: `{kind}__{digest}`.
pub open spec fn cache_key(r: RequestParts) -> Seq<char> {
    r.tpe + "__"@ + r.digest
}

/// The address of the entry at an upstream:
/// `{base}/{kind}/repo={repository}/{digest}`, `base` without trailing slashes.
pub open spec fn upstream_uri(base: Seq<char>, r: RequestParts) -> Seq<char> {
    trim_end(base, '/') + "/"@ + r.tpe + "/repo="@ + r.repo + "/"@ + r.digest
}

/// The key of the entry in an object store:
/// `{prefix}/{kind}/repo_{repository}/{digest}`.
pub open spec fn object_key(prefix: Seq<char>, r: RequestParts) -> Seq<char> {
    prefix + "/"@ + r.tpe + "/repo_"@ + r.repo + "/"@ + r.digest
}

/// Whether `http` accepts `text` as a URI.
pub uninterp spec fn uri_accepts(text: Seq<char>) -> bool;

/// `<http::Uri as FromStr>::from_str`, without the address it builds: it
/// succeeds on the texts that the crate's parser accepts, which depends on
/// the text alone.
#[verifier::external_body]
fn parse_uri(text: &str) -> (r: Result<(), http::uri::InvalidUri>)
    ensures
        r.is_ok() == uri_accepts(text@),
{
    match text.parse::<http::Uri>() {
        Ok(_) => Ok(()),
        Err(e) => Err(e),
    }
}

impl ProxyRequest {
    /// What `path` names, or `None` where it names nothing.
    pub fn parse(path: &str) -> (r: Option<ProxyRequest>)
        ensures
            match r {
                Some(p) => parse_path(path@) == Some(p@),
                None => parse_path(path@).is_none(),
            },
    {
        let t = trim_matches(path, '/');
        proof {
            reveal_strlit("repo=");
        }
        if starts_with(t, "repo=") {
            let n: usize = t.unicode_len();
            let rest = t.substring_char(5, n);
            let named = split_on(rest, '/');
            if named.len() >= 3 {
                let name = split_on(named[0].as_str(), '=');
                proof {
                    lemma_split_nonempty(named[0]@, '=');
                    assert(views(name@)[0] == name[0]@);
                    assert(views(named@)[0] == named[0]@);
                    assert(views(named@)[1] == named[1]@);
                    assert(views(named@)[2] == named[2]@);
                }
                Some(
                    ProxyRequest {
                        repo: name[0].clone(),
                        tpe: named[1].clone(),
                        digest: named[2].clone(),
                    },
                )
            } else {
                None
            }
        } else {
            let el = split_on(t, '/');
            proof {
                lemma_split_nonempty(t@, '/');
                assert(views(el@)[0] == el[0]@);
            }
            if el.len() == 2 && (str_eq(el[0].as_str(), "ac") || str_eq(el[0].as_str(), "cas")) {
                proof {
                    assert(views(el@)[1] == el[1]@);
                }
                Some(
                    ProxyRequest {
                        repo: String::from_str("unknown"),
                        tpe: el[0].clone(),
                        digest: el[1].clone(),
                    },
                )
            } else if t.unicode_len() == 0 {
                Some(
                    ProxyRequest {
                        repo: String::from_str("unknown"),
                        tpe: String::from_str("unknown"),
                        digest: String::from_str("index.html"),
                    },
                )
            } else {
                Some(
                    ProxyRequest {
                        repo: String::from_str("unknown"),
                        tpe: String::from_str("unknown"),
                        digest: replace_char(t, '/', "__"),
                    },
                )
            }
        }
    }

    /// What `path` names.
    pub fn new(path: &str) -> (r: ProxyRequest)
        requires
            parse_path(path@).is_some(),
        ensures
            Some(r@) == parse_path(path@),
    {
        match ProxyRequest::parse(path) {
            Some(p) => p,
            None => ProxyRequest {
                repo: String::new(),
                tpe: String::new(),
                digest: String::new(),
            },
        }
    }

    /// The name of the cache entry.
    pub fn file_name(&self) -> (r: String)
        ensures
            r@ == cache_key(self@),
    {
        let mut out = self.tpe.clone();
        out.append("__");
        out.append(self.digest.as_str());
        out
    }

    /// The text of the entry's address at the upstream `upstream_uri`.
    pub fn query_uri_text(&self, upstream_uri: &str) -> (r: String)
        ensures
            r@ == self::upstream_uri(upstream_uri@, self@),
    {
        let mut out = String::from_str(trim_end_matches(upstream_uri, '/'));
        out.append("/");
        out.append(self.tpe.as_str());
        out.append("/repo=");
        out.append(self.repo.as_str());
        out.append("/");
        out.append(self.digest.as_str());
        out
    }

    /// The entry's address at the upstream `upstream_uri`, where it is a valid
    /// URI, and the parser's error where it is not.
    pub fn build_query_uri(&self, upstream_uri: &str) -> (r: Result<String, ServerError>)
        ensures
            match r {
                Ok(text) => text@ == self::upstream_uri(upstream_uri@, self@) && uri_accepts(
                    text@,
                ),
                Err(e) => e is InvalidUri && !uri_accepts(
                    self::upstream_uri(upstream_uri@, self@),
                ),
            },
    {
        let text = self.query_uri_text(upstream_uri);
        let parsed = parse_uri(text.as_str());
        checked_address(text, parsed)
    }
}

/// The address `text` after parsing: the text when the parser accepted it,
/// else the parser's error.
pub fn checked_address(text: String, parsed: Result<(), http::uri::InvalidUri>) -> (r:
    Result<String, ServerError>)
    ensures
        match parsed {
            Ok(_) => r == Ok::<String, ServerError>(text),
            Err(e) => r == Err::<String, ServerError>(ServerError::InvalidUri(e)),
        },
{
    match parsed {
        Ok(_) => Ok(text),
        Err(e) => Err(ServerError::from_invalid_uri(e)),
    }
}

/// The key under which the entry lies in the object store of `s3_config`.
pub fn to_upstream_path(proxy_request: &ProxyRequest, s3_config: &S3Config) -> (r: String)
    ensures
        r@ == object_key(s3_config.prefix@, proxy_request@),
{
    let mut out = s3_config.prefix.clone();
    out.append("/");
    out.append(proxy_request.tpe.as_str());
    out.append("/repo_");
    out.append(proxy_request.repo.as_str());
    out.append("/");
    out.append(proxy_request.digest.as_str());
    out
}

/// A path `/repo={repo}/{kind}/{digest}` names exactly these three, where
/// none of them holds a slash, the repository holds no `=` and the digest is
/// not empty.  Its cache key is `{kind}__{digest}`, and its address at an
/// upstream that ends in no slash is `{base}/{kind}/repo={repo}/{digest}`.
pub proof fn lemma_repository_path(
    repo: Seq<char>,
    kind: Seq<char>,
    digest: Seq<char>,
    base: Seq<char>,
)
    requires
        free_of(repo, '/'),
        free_of(repo, '='),
        free_of(kind, '/'),
        free_of(digest, '/'),
        digest.len() > 0,
        base.len() == 0 || base.last() != '/',
    ensures
        parse_path("/repo="@ + repo + "/"@ + kind + "/"@ + digest) == Some(
            RequestParts { repo, tpe: kind, digest },
        ),
        cache_key(RequestParts { repo, tpe: kind, digest }) == kind + "__"@ + digest,
        upstream_uri(base, RequestParts { repo, tpe: kind, digest }) == base + "/"@ + kind
            + "/repo="@ + repo + "/"@ + digest,
{
    reveal_strlit("/repo=");
    reveal_strlit("repo=");
    reveal_strlit("/");
    let slash = seq!['/'];
    assert("/"@ =~= slash);
    let path = "/repo="@ + repo + "/"@ + kind + "/"@ + digest;
    let rest = repo + slash + kind + slash + digest;
    let t = "repo="@ + rest;
    assert(path.drop_first() =~= t);
    assert(path[0] == '/');
    assert(t[0] == 'r');
    assert(trim_start(path, '/') == trim_start(t, '/'));
    assert(trim_start(t, '/') == t);
    assert(t.last() == digest.last());
    assert(trim_end(t, '/') == t);
    assert(trim(path, '/') == t);
    assert("repo="@ =~= t.subrange(0, 5));
    assert(t.subrange(5, t.len() as int) =~= rest);
    lemma_split_whole(repo, '/');
    lemma_split_append(repo, kind, '/');
    lemma_split_append(repo + slash + kind, digest, '/');
    assert(split(rest, '/') =~= seq![repo, kind, digest]);
    lemma_split_whole(repo, '=');
}

/// A path of nothing but slashes, the empty one included, names the index
/// page.
pub proof fn lemma_root_path(path: Seq<char>)
    requires
        forall|i: int| 0 <= i < path.len() ==> path[i] == '/',
    ensures
        parse_path(path) == Some(unknown_parts("index.html"@)),
{
    reveal_strlit("repo=");
    lemma_trim_all(path, '/');
    assert(split(Seq::<char>::empty(), '/') =~= seq![Seq::<char>::empty()]);
}

} // verus!
