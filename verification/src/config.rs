//! The CLI's local configuration: where the API lives, which OAuth client
//! logs in, and how chatty the output is.  Reading and writing the
//! configuration file is the caller's business; this type holds and derives
//! the values.

use vstd::prelude::*;
use vstd::string::StringExecFns;

verus! {

/// How chatty the CLI output is.
#[derive(Debug, Clone, Copy, PartialEq, Eq, Structural)]
pub enum LogLevel {
    Chirpy,
    Normal,
    Stfu,
}

impl Default for LogLevel {
    fn default() -> (r: Self)
        ensures
            r == LogLevel::Chirpy,
    {
        LogLevel::Chirpy
    }
}

/// The local configuration values.
pub struct CliConfig {
    base_url: String,
    github_client_id: String,
    log_level: LogLevel,
}

impl CliConfig {
    pub closed spec fn spec_base_url(self) -> Seq<char> {
        self.base_url@
    }

    pub closed spec fn spec_github_client_id(self) -> Seq<char> {
        self.github_client_id@
    }

    pub closed spec fn spec_log_level(self) -> LogLevel {
        self.log_level
    }

    /// A configuration from already-loaded values.
    pub fn from_parts(base_url: String, github_client_id: String, log_level: LogLevel) -> (r: Self)
        ensures
            r.spec_base_url() == base_url@,
            r.spec_github_client_id() == github_client_id@,
            r.spec_log_level() == log_level,
    {
        CliConfig { base_url, github_client_id, log_level }
    }

    /// Where the configuration file lives, relative to the home directory.
    pub fn get_config_filepath() -> (r: String)
        ensures
            r@ == "~/.sfs/config.toml"@,
    {
        "~/.sfs/config.toml".to_owned()
    }

    /// The OAuth login address for this configuration's client id, calling
    /// back into this configuration's API.
    pub fn get_gh_login_uri(&self) -> (r: String)
        ensures
            r@ == "https://github.com/login/oauth/authorize?client_id="@
                + self.spec_github_client_id() + "&redirect_uri="@ + self.spec_base_url()
                + "/auth/gh-callback&scope=repo,user,user:email"@,
    {
        let mut out = String::new();
        out.append("https://github.com/login/oauth/authorize?client_id=");
        out.append(self.github_client_id.as_str());
        out.append("&redirect_uri=");
        out.append(self.base_url.as_str());
        out.append("/auth/gh-callback&scope=repo,user,user:email");
        out
    }

    /// The API's base address.
    pub fn get_base_url(&self) -> (r: &str)
        ensures
            r@ == self.spec_base_url(),
    {
        self.base_url.as_str()
    }

    pub fn get_log_level(&self) -> (r: LogLevel)
        ensures
            r == self.spec_log_level(),
    {
        self.log_level
    }

    /// Change the log level.  Persisting the change is the caller's
    /// business.
    pub fn set_log_level(&mut self, log_level: LogLevel) -> (r: ())
        ensures
            final (self).spec_log_level() == log_level,
            final (self).spec_base_url() == old(self).spec_base_url(),
            final (self).spec_github_client_id() == old(self).spec_github_client_id(),
    {
        self.log_level = log_level;
    }
}

impl Default for CliConfig {
    /// The stock configuration: the public API endpoint, the CLI's OAuth
    /// client, chirpy output.
    fn default() -> (r: Self)
        ensures
            r.spec_base_url() == "https://api.simplefs.io"@,
            r.spec_github_client_id() == "Ov23li5rbT6pIfVXc7Rv"@,
            r.spec_log_level() == LogLevel::Chirpy,
    {
        CliConfig {
            base_url: "https://api.simplefs.io".to_owned(),
            github_client_id: "Ov23li5rbT6pIfVXc7Rv".to_owned(),
            log_level: LogLevel::Chirpy,
        }
    }
}

} // verus!
