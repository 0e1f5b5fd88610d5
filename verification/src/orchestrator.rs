//! The forward-auth request protocol: identifying the caller from the
//! session cookie, answering the proxy's check subrequest, and deciding a
//! login attempt.  Every decision here is a pure function of the gateway
//! state and the request's plain values; the HTTP layer only translates
//! them into status codes, headers and cookies.

use vstd::prelude::*;
use vstd::string::StrSliceExecFns;
use vstd::string::StringExecFns;

use crate::config::AppConfig;
use crate::credentials::{bcrypt_accepts, find_token, find_user, UsersConfig};
use crate::policy::opt_str_view;
use crate::rate_limiter::RateLimiter;
use crate::redirect::{RedirectState, RedirectTarget};
use crate::urls::{extract_path_from_url, spec_extract_path};

verus! {

/// A submitted login form.
pub struct LoginForm {
    pub username: String,
    pub password: String,
}

/// The identity a session cookie resolves to: the token's user, or nobody
/// for an absent, empty, or unresolvable token.  Cookie trouble always
/// degrades to anonymous, never to an error.
pub open spec fn spec_identify(users: UsersConfig, cookie: Option<Seq<char>>) -> Option<Seq<char>> {
    match cookie {
        None => None,
        Some(t) => if t.len() == 0 {
            None
        } else {
            match find_token(users.users_seq(), t) {
                Some(u) => Some(u.username@),
                None => None,
            }
        },
    }
}

/// The request path to evaluate: the path-plus-query of the forwarded
/// original URI when it parses as a URL, the raw header text when it does
/// not, and the root path when the header is absent.
pub open spec fn spec_request_path(original_uri: Option<Seq<char>>) -> Seq<char> {
    let raw = match original_uri {
        Some(u) => u,
        None => "/"@,
    };
    match spec_extract_path(raw) {
        Some(p) => p,
        None => raw,
    }
}

/// Resolves the session cookie to a username, as [`spec_identify`]
/// describes.
pub fn identify_user_with_cookie(users: &UsersConfig, cookie_value: Option<&str>) -> (r: Option<
    String,
>)
    ensures
        r.deep_view() == spec_identify(*users, opt_str_view(cookie_value)),
{
    match cookie_value {
        None => None,
        Some(t) => {
            if t.unicode_len() == 0 {
                None
            } else {
                match users.get_username_from_public_hash(t) {
                    Some(name) => Some(name.clone()),
                    None => None,
                }
            }
        },
    }
}

/// The gateway's answer to the proxy's check subrequest.
pub enum CheckDecision {
    /// The required subdomain header was missing or empty: a malformed
    /// request, answered 400.
    MissingSubdomain,
    /// Access granted; `username` names the caller, or is absent for an
    /// anonymous caller (no identity header is attached then).
    Allowed { username: Option<String> },
    /// Denied and nobody is logged in: answered 401, redirect state set.
    DeniedAnonymous,
    /// Denied although the caller is authenticated: answered 403, redirect
    /// state set.
    DeniedForbidden,
}

/// Decides one proxied request.  The caller is identified from the session
/// cookie (failing closed to anonymous), the path is recovered from the
/// forwarded original URI, and the policy engine's verdict for
/// `(subdomain, path, identity)` decides.  On denial the redirect state
/// records where the caller was headed, so the login that follows can
/// return there; on any other outcome the redirect state is untouched.
pub fn check_request(
    config: &AppConfig,
    users: &UsersConfig,
    redirect: &mut RedirectState,
    cookie_value: Option<&str>,
    subdomain: Option<&str>,
    original_uri: Option<&str>,
) -> (r: CheckDecision)
    ensures
        ({
            let sd = opt_str_view(subdomain);
            let user = spec_identify(*users, opt_str_view(cookie_value));
            let path = spec_request_path(opt_str_view(original_uri));
            if sd is None || sd.unwrap().len() == 0 {
                r is MissingSubdomain && *final(redirect) == *old(redirect)
            } else {
                let s = sd.unwrap();
                if config.access_rules.verdict(Some(s), path, user) {
                    &&& r matches CheckDecision::Allowed { username } && username.deep_view()
                        == user
                    &&& *final(redirect) == *old(redirect)
                } else {
                    &&& final(redirect).pending_target() matches Some(t) && t.subdomain.deep_view()
                        == Some(s) && t.path@ == path
                    &&& if user is None {
                        r is DeniedAnonymous
                    } else {
                        r is DeniedForbidden
                    }
                }
            }
        }),
{
    let s = match subdomain {
        Some(s) => s,
        None => {
            return CheckDecision::MissingSubdomain;
        },
    };
    if s.unicode_len() == 0 {
        return CheckDecision::MissingSubdomain;
    }
    let user = identify_user_with_cookie(users, cookie_value);
    let uri: &str = match original_uri {
        Some(u) => u,
        None => "/",
    };
    let path = match extract_path_from_url(uri) {
        Ok(p) => p,
        Err(_) => uri.to_owned(),
    };
    proof {
        assert(path@ == spec_request_path(opt_str_view(original_uri)));
    }
    let user_ref: Option<&str> = match &user {
        Some(u) => Some(u.as_str()),
        None => None,
    };
    proof {
        assert(opt_str_view(user_ref) == user.deep_view());
    }
    if config.access_rules.evaluate(Some(s), path.as_str(), user_ref) {
        CheckDecision::Allowed { username: user }
    } else {
        let anonymous = user.is_none();
        redirect.set(RedirectTarget { subdomain: Some(s.to_owned()), path });
        if anonymous {
            CheckDecision::DeniedAnonymous
        } else {
            CheckDecision::DeniedForbidden
        }
    }
}

/// The outcome of a login attempt.
pub enum LoginOutcome {
    /// Throttled before credentials were even looked at.
    RateLimited,
    /// Unknown username or wrong password — deliberately the same answer
    /// for both.
    InvalidCredentials,
    /// The credentials are right, but the caller lacks permission for the
    /// target the redirect state recorded.
    Forbidden,
    /// Logged in: set the session cookie to `token` and redirect to
    /// `redirect_to`.
    LoggedIn { token: String, redirect_to: String },
}

/// Decides a login attempt.  `admitted` is the rate limiter's verdict for
/// this client, taken first: a throttled attempt never touches
/// credentials.  A failed password check answers with a generic failure.
/// On success the limiter entry for the client is cleared, the redirect
/// state is consumed (defaulting to the root path when it holds nothing or
/// did not survive the round trip), and the policy engine re-evaluates the
/// recorded target for the now-known user: a caller still lacking
/// permission there is refused, anyone else is sent on, with the target
/// rebuilt as a fully qualified URL when it names a subdomain.
pub fn login_decision(
    config: &AppConfig,
    users: &UsersConfig,
    limiter: &RateLimiter,
    redirect: &mut RedirectState,
    admitted: bool,
    username: &str,
    password: &str,
    client_ip: &str,
) -> (r: LoginOutcome)
    ensures
        ({
            let verified = match find_user(users.users_seq(), username@) {
                Some(u) => bcrypt_accepts(u.private_hash@, password@),
                None => false,
            };
            if !admitted {
                r is RateLimited && *final(redirect) == *old(redirect)
            } else if !verified {
                r is InvalidCredentials && *final(redirect) == *old(redirect)
            } else {
                let tsub = match old(redirect).pending_target() {
                    Some(t) => t.subdomain.deep_view(),
                    None => None,
                };
                let tpath = match old(redirect).pending_target() {
                    Some(t) => t.path@,
                    None => "/"@,
                };
                &&& final(redirect).pending_target() is None
                &&& if config.access_rules.verdict(tsub, tpath, Some(username@)) {
                    r matches LoginOutcome::LoggedIn { token, redirect_to } && (find_user(
                        users.users_seq(),
                        username@,
                    ) matches Some(u) && token@ == u.public_hash@) && redirect_to@ == match tsub {
                        Some(s) => "https://"@ + s + "."@ + config.cookie_domain@ + tpath,
                        None => tpath,
                    }
                } else {
                    r is Forbidden
                }
            }
        }),
{
    if !admitted {
        return LoginOutcome::RateLimited;
    }
    if !users.verify_password(username, password) {
        return LoginOutcome::InvalidCredentials;
    }
    limiter.clear(client_ip);
    let token = match users.get_public_hash(username) {
        Some(t) => t.clone(),
        None => {
            proof {
                assert(false);
            }
            "".to_owned()
        },
    };
    let consumed = redirect.consume();
    let (sub_opt, path): (Option<String>, String) = match consumed {
        Some(t) => (t.subdomain, t.path),
        None => (None, "/".to_owned()),
    };
    let sub_ref: Option<&str> = match &sub_opt {
        Some(s) => Some(s.as_str()),
        None => None,
    };
    let allowed = config.access_rules.evaluate(sub_ref, path.as_str(), Some(username));
    if allowed {
        let redirect_to = match sub_opt {
            Some(s) => {
                let mut url = "https://".to_owned();
                url.append(s.as_str());
                url.append(".");
                url.append(config.cookie_domain.as_str());
                url.append(path.as_str());
                proof {
                    assert(url@ =~= "https://"@ + s@ + "."@ + config.cookie_domain@ + path@);
                }
                url
            },
            None => path,
        };
        LoginOutcome::LoggedIn { token, redirect_to }
    } else {
        LoginOutcome::Forbidden
    }
}

} // verus!
