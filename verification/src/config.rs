//! The gateway's configuration: plain settings, the access rule table, and
//! the owned application state that request handlers read.  Reload swaps
//! whole tables at once; a reload whose source failed to parse leaves the
//! running tables untouched.

use vstd::prelude::*;

use crate::credentials::UsersConfig;
use crate::policy::opt_str_view;
use crate::rules::AccessRules;

verus! {

/// Log verbosity levels, from most to least chatty.
#[derive(Clone, Copy, Debug, PartialEq, Eq, Structural)]
pub enum LogLevel {
    Trace,
    Debug,
    Info,
    Warn,
    Error,
}

impl LogLevel {
    /// The level's lowercase name, as configuration files spell it.
    pub fn to_string(&self) -> (r: String)
        ensures
            r@ == match *self {
                LogLevel::Trace => "trace"@,
                LogLevel::Debug => "debug"@,
                LogLevel::Info => "info"@,
                LogLevel::Warn => "warn"@,
                LogLevel::Error => "error"@,
            },
    {
        let s: &str = match self {
            LogLevel::Trace => "trace",
            LogLevel::Debug => "debug",
            LogLevel::Info => "info",
            LogLevel::Warn => "warn",
            LogLevel::Error => "error",
        };
        s.to_owned()
    }
}

/// One persisted user entry, as the user file stores it.
pub struct User {
    pub username: String,
    pub password_hash: String,
}

/// The gateway's static configuration, loaded at startup.
pub struct AppConfig {
    pub server_address: String,
    pub server_port: u16,
    pub static_folder: String,
    pub log_level: LogLevel,
    pub cookie_domain: String,
    pub users_file: String,
    pub secure_cookies: bool,
    pub cookie_duration: u32,
    pub access_rules: AccessRules,
    pub external_links: Vec<(String, String)>,
}

impl AppConfig {
    /// The domain session cookies are scoped to.
    pub fn get_cookie_domain(&self) -> (r: &str)
        ensures
            r@ == self.cookie_domain@,
    {
        self.cookie_domain.as_str()
    }

    /// Session cookie lifetime, in hours.
    pub fn get_cookie_duration(&self) -> (r: u32)
        ensures
            r == self.cookie_duration,
    {
        self.cookie_duration
    }

    /// The landing page's external links.
    pub fn get_external_links(&self) -> (r: &Vec<(String, String)>)
        ensures
            r@ == self.external_links@,
    {
        &self.external_links
    }

    /// The address the server binds to.
    pub fn get_server_address(&self) -> (r: &str)
        ensures
            r@ == self.server_address@,
    {
        self.server_address.as_str()
    }

    /// The port the server binds to.
    pub fn get_server_port(&self) -> (r: u16)
        ensures
            r == self.server_port,
    {
        self.server_port
    }

    /// The configured log verbosity.
    pub fn get_log_level(&self) -> (r: LogLevel)
        ensures
            r == self.log_level,
    {
        self.log_level
    }

    /// The directory served as static assets.
    pub fn get_static_folder(&self) -> (r: &str)
        ensures
            r@ == self.static_folder@,
    {
        self.static_folder.as_str()
    }

    /// The path of the persisted user table.
    pub fn get_users_file(&self) -> (r: &str)
        ensures
            r@ == self.users_file@,
    {
        self.users_file.as_str()
    }

    /// Whether cookies carry the `Secure` attribute.
    pub fn use_secure_cookies(&self) -> (r: bool)
        ensures
            r == self.secure_cookies,
    {
        self.secure_cookies
    }

    /// The policy engine's decision for `(subdomain, route, username)`; see
    /// [`AccessRules::evaluate`].
    pub fn is_access_allowed(&self, subdomain: Option<&str>, route: &str, username: Option<&str>)
        -> (r: bool)
        ensures
            r == self.access_rules.verdict(opt_str_view(subdomain), route@, opt_str_view(username)),
    {
        self.access_rules.evaluate(subdomain, route, username)
    }
}

/// Everything configuration-shaped except the rule table is equal.
pub open spec fn same_but_rules(a: AppConfig, b: AppConfig) -> bool {
    &&& a.server_address == b.server_address
    &&& a.server_port == b.server_port
    &&& a.static_folder == b.static_folder
    &&& a.log_level == b.log_level
    &&& a.cookie_domain == b.cookie_domain
    &&& a.users_file == b.users_file
    &&& a.secure_cookies == b.secure_cookies
    &&& a.cookie_duration == b.cookie_duration
    &&& a.external_links == b.external_links
}

/// The owned application state handed to request handlers: the static
/// configuration (with the active rule table) and the credential store.
pub struct GatewayState {
    pub config: AppConfig,
    pub users: UsersConfig,
}

impl GatewayState {
    pub fn new(config: AppConfig, users: UsersConfig) -> (r: Self)
        ensures
            r.config == config,
            r.users == users,
    {
        GatewayState { config, users }
    }

    /// Applies the outcome of re-reading the access rules.  A source that
    /// parsed swaps the table wholesale; one that did not — `None` — leaves
    /// the previously active table fully intact and serving.
    pub fn reload_access_rules(&mut self, parsed: Option<AccessRules>)
        ensures
            final(self).users == old(self).users,
            same_but_rules(final(self).config, old(self).config),
            match parsed {
                Some(t) => final(self).config.access_rules == t,
                None => final(self).config.access_rules == old(self).config.access_rules,
            },
    {
        match parsed {
            Some(t) => {
                self.config.access_rules = t;
            },
            None => {},
        }
    }

    /// Applies the outcome of re-reading the credential table, in the same
    /// keep-the-old-state-on-failure fashion.
    pub fn reload_users(&mut self, parsed: Option<UsersConfig>)
        ensures
            final(self).config == old(self).config,
            match parsed {
                Some(u) => final(self).users == u,
                None => final(self).users == old(self).users,
            },
    {
        match parsed {
            Some(u) => {
                self.users = u;
            },
            None => {},
        }
    }
}

} // verus!
