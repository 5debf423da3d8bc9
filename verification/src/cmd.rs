//! The CLI's commands, as plain option structures, and the small decisions
//! they make.  Argument parsing, prompting and the network calls live with
//! the caller; the library holds the values and the logic on them.

use vstd::prelude::*;
use vstd::string::StringExecFns;

use crate::api_types::{CliColFilters, Order, OrderCol};
use crate::config::LogLevel;

verus! {

/// Visibility choice of an upload.
#[derive(Debug, Clone, Copy, PartialEq, Eq, Structural)]
pub enum CmdVisibility {
    Public,
    Private,
}

/// An expiry given either as an absolute instant or as a time to live,
/// both in seconds (instants since the Unix epoch).
#[derive(Debug, Clone, Copy)]
pub struct CmdExpiryParams {
    pub expires_at: Option<i64>,
    pub ttl: Option<u64>,
}

impl CmdExpiryParams {
    /// Neither an instant nor a time to live was given.
    pub fn is_unset(&self) -> (r: bool)
        ensures
            r == (self.expires_at is None && self.ttl is None),
    {
        self.expires_at.is_none() && self.ttl.is_none()
    }

    /// The expiry instant: the given instant, or `now` plus the given time
    /// to live, or `now` plus thirty minutes when nothing was given.
    pub fn get_expires_at(&self, now: i64) -> (r: i64)
        requires
            self.ttl matches Some(t) ==> t <= i64::MAX && now as int + t <= i64::MAX,
            self.ttl is None ==> now as int + 1800 <= i64::MAX,
        ensures
            r as int == match self.expires_at {
                Some(exp) => exp as int,
                None => now as int + match self.ttl {
                    Some(t) => t as int,
                    None => 1800int,
                },
            },
    {
        match self.expires_at {
            Some(exp) => exp,
            None => match self.ttl {
                Some(t) => now + t as i64,
                None => now + 1800,
            },
        }
    }
}

/// Print the remote directory tree.
pub struct TreeCommand {
    /// Depth to print to; the full tree when absent.
    pub level: Option<i16>,
    pub dirpath: Option<String>,
}

/// Create a remote directory.
pub struct MkdirCommand {
    pub dirpath: String,
}

/// Remove a remote directory.
pub struct RmdirCommand {
    pub dirpath: String,
}

/// Remove remote files by name.
pub struct RmCommand {
    pub filenames: Vec<String>,
    pub dirpath: Option<String>,
}

/// Move a remote directory.
pub struct MvdirCommand {
    pub dirpath: String,
    pub new_dirpath: String,
}

/// Move a remote file.
pub struct MvCommand {
    pub filepath: String,
    pub new_filepath: String,
}

/// Change the selected working directory.
pub struct Cd {
    pub dirpath: String,
}

/// List remote files.
pub struct LsCommand {
    pub dirpath: Option<String>,
    pub limit: Option<usize>,
    pub page: Option<usize>,
    pub name: Option<String>,
    pub type_: Option<String>,
    pub public: bool,
    pub encrypted: Option<bool>,
    pub order_by: Option<OrderCol>,
    pub order: Option<Order>,
    pub trash: bool,
    pub filters: CliColFilters,
}

impl LsCommand {
    /// The cache-age column of one file: the rendered time to live, or a
    /// marker for a value too large to be a duration.
    pub fn get_file_cache_duration_str(secs: u64) -> (r: String)
        ensures
            secs <= i64::MAX ==> r@ == "CacheTTL="@ + crate::x2str::spec_duration_str(secs),
            secs > i64::MAX ==> r@ == "INVALID_DURATION"@,
    {
        proof {
            reveal_strlit("CacheTTL=");
            reveal_strlit("INVALID_DURATION");
        }
        if secs > 0x7FFF_FFFF_FFFF_FFFF {
            return "INVALID_DURATION".to_owned();
        }
        let mut out = "CacheTTL=".to_owned();
        let d = crate::x2str::duration2str(secs);
        out.append(d.as_str());
        out
    }
}

/// Print the selected working directory.
pub struct PwdCommand;

/// Produce a shareable link for a remote file.
pub struct UrlCommand {
    pub path: String,
    pub exp_input: CmdExpiryParams,
}

/// Create an empty remote file.
pub struct TouchCommand {
    pub path: String,
    pub public: bool,
    pub exp_input: Option<CmdExpiryParams>,
}

/// Change the local configuration.
pub struct ConfigCommand {
    pub set_log_level: Option<LogLevel>,
}

/// Serve local files on the local network.
pub struct ServeCommand {
    pub patterns: Vec<String>,
}

/// Show API-key usage.
pub struct UsageCommand;

} // verus!
