//! URL handling around the proxy protocol: pulling the request path out of
//! the forwarded original URI, and recognising which subdomain a host or an
//! absolute URL addresses.

use vstd::prelude::*;
use vstd::string::StrSliceExecFns;
use vstd::string::StringExecFns;

use crate::errors::AppError;
use crate::strutil::{str_find_char, str_starts_with};

verus! {

/// What url::Url::parse yields for a text: the host, path and query of the
/// parsed absolute URL, or nothing when the text does not parse.  A
/// deterministic function of the text alone.
pub uninterp spec fn url_parts(s: Seq<char>) -> Option<
    (Option<Seq<char>>, Seq<char>, Option<Seq<char>>),
>;

/// Relies on url::Url::parse, with Url::host_str, Url::path and Url::query
/// picking the parsed URL's components out as plain strings.
#[verifier::external_body]
fn parse_url(s: &str) -> (r: Option<(Option<String>, String, Option<String>)>)
    ensures
        r.deep_view() == url_parts(s@),
{
    match url::Url::parse(s) {
        Ok(u) => Some(
            (
                u.host_str().map(|h| h.to_string()),
                u.path().to_string(),
                u.query().map(|q| q.to_string()),
            ),
        ),
        Err(_) => None,
    }
}

/// The request path carried by an absolute URL: its path, with the query
/// string re-attached, and `/` for an empty path; nothing when the text is
/// not a URL.
pub open spec fn spec_extract_path(s: Seq<char>) -> Option<Seq<char>> {
    match url_parts(s) {
        None => None,
        Some((host, path, query)) => Some(
            if path.len() == 0 {
                "/"@
            } else {
                match query {
                    Some(q) => path + "?"@ + q,
                    None => path,
                }
            },
        ),
    }
}

/// Extracts path and query from an absolute URL, as
/// [`spec_extract_path`] describes; text that does not parse as a URL is
/// reported as a configuration error.
pub fn extract_path_from_url(url_str: &str) -> (r: Result<String, AppError>)
    ensures
        match spec_extract_path(url_str@) {
            Some(p) => r matches Ok(s) && s@ == p,
            None => r matches Err(e) && e is ConfigurationError,
        },
{
    match parse_url(url_str) {
        Some((_, path, query)) => {
            if path.as_str().unicode_len() == 0 {
                Ok("/".to_owned())
            } else {
                match query {
                    Some(q) => {
                        let mut s = path;
                        s.append("?");
                        s.append(q.as_str());
                        proof {
                            assert(s@ =~= spec_extract_path(url_str@).unwrap());
                        }
                        Ok(s)
                    },
                    None => Ok(path),
                }
            }
        },
        None => Err(AppError::ConfigurationError("the text is not a valid URL".to_owned())),
    }
}

/// The leading label of a host name: everything before the first `.`, or
/// the whole host when it has no `.`.
pub open spec fn leading_label(host: Seq<char>) -> Seq<char>
    decreases host.len(),
{
    if host.len() == 0 {
        Seq::empty()
    } else if host.first() == '.' {
        Seq::empty()
    } else {
        seq![host.first()] + leading_label(host.drop_first())
    }
}

proof fn lemma_leading_label(host: Seq<char>, i: int)
    requires
        0 <= i <= host.len(),
        forall|j: int| 0 <= j < i ==> host[j] != '.',
        i < host.len() ==> host[i] == '.',
    ensures
        leading_label(host) == host.take(i),
    decreases host.len(),
{
    if host.len() == 0 {
        assert(host.take(i) =~= Seq::empty());
    } else if host.first() == '.' {
        assert(i == 0);
        assert(host.take(0) =~= Seq::empty());
    } else {
        assert(i > 0);
        assert forall|j: int| 0 <= j < i - 1 implies (#[trigger] host.drop_first()[j]) != '.' by {
            assert(host.drop_first()[j] == host[j + 1]);
        }
        if i - 1 < host.drop_first().len() {
            assert(host.drop_first()[i - 1] == host[i]);
        }
        lemma_leading_label(host.drop_first(), i - 1);
        assert(seq![host.first()] + host.drop_first().take(i - 1) =~= host.take(i));
    }
}

/// The subdomain a host addresses: its leading label, e.g. the part before
/// the first dot.
pub fn extract_subdomain_from_host(host: &str) -> (r: &str)
    ensures
        r@ == leading_label(host@),
{
    let n = host.unicode_len();
    match str_find_char(host, '.') {
        Some(i) => {
            proof {
                lemma_leading_label(host@, i as int);
            }
            host.substring_char(0, i)
        },
        None => {
            proof {
                lemma_leading_label(host@, n as int);
                assert(host@.take(n as int) =~= host@);
            }
            host
        },
    }
}

/// The subdomain an absolute `http(s)` URL addresses: the non-empty
/// leading label of its host; nothing for other texts.
pub open spec fn spec_extract_subdomain(s: Seq<char>) -> Option<Seq<char>> {
    if !("http://"@.is_prefix_of(s) || "https://"@.is_prefix_of(s)) {
        None
    } else {
        match url_parts(s) {
            None => None,
            Some((host, path, query)) => match host {
                None => None,
                Some(h) => if leading_label(h).len() > 0 {
                    Some(leading_label(h))
                } else {
                    None
                },
            },
        }
    }
}

/// Extracts the subdomain of an absolute `http(s)` URL, as
/// [`spec_extract_subdomain`] describes.
pub fn extract_subdomain_from_url(url_str: &str) -> (r: Option<String>)
    ensures
        r.deep_view() == spec_extract_subdomain(url_str@),
{
    if str_starts_with(url_str, "http://") || str_starts_with(url_str, "https://") {
        match parse_url(url_str) {
            Some((Some(host), _, _)) => {
                let sub = extract_subdomain_from_host(host.as_str());
                if sub.unicode_len() > 0 {
                    Some(sub.to_owned())
                } else {
                    None
                }
            },
            _ => None,
        }
    } else {
        None
    }
}

/// Builds the fully qualified URL of `path` on a subdomain of the
/// gateway's fixed site.
pub fn create_subdomain_url(subdomain: &str, path: &str) -> (r: String)
    ensures
        r@ == "https://"@ + subdomain@ + ".nginx.lan"@ + path@,
{
    let mut r = "https://".to_owned();
    r.append(subdomain);
    r.append(".nginx.lan");
    r.append(path);
    proof {
        assert(r@ =~= "https://"@ + subdomain@ + ".nginx.lan"@ + path@);
    }
    r
}

} // verus!
