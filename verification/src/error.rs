//! The ways a tool can refuse its input, with the message each one reports.
use vstd::prelude::*;

verus! {

/// Why a tool refused to proceed.
#[derive(Debug, Clone, PartialEq, Eq)]
pub enum PluginError {
    /// An LXC operation was asked for without a vmid.
    VmidRequired,
    /// The `/config` path to back up is not a directory.
    ConfigNotDirectory(String),
    /// The backup tarball to restore from does not exist.
    TarballNotFound(String),
    /// No endpoint is registered under this name.
    EndpointNotRegistered(String),
    /// The endpoint registered under this name is disabled.
    EndpointDisabled(String),
    /// The memory-guard restart of the server failed.
    RestartFailed,
    /// The system clock reads a time archive stamps cannot name.
    ClockUnavailable,
}

/// The message reported for an error.
pub open spec fn error_message(e: PluginError) -> Seq<char> {
    match e {
        PluginError::VmidRequired => "`vmid` is required when runtime=lxc"@,
        PluginError::ConfigNotDirectory(p) => "config path '"@ + p@ + "' is not a directory"@,
        PluginError::TarballNotFound(p) => "backup tarball '"@ + p@ + "' not found"@,
        PluginError::EndpointNotRegistered(n) => "jellyfin endpoint '"@ + n@ + "' not registered"@,
        PluginError::EndpointDisabled(n) => "jellyfin endpoint '"@ + n@ + "' is disabled"@,
        PluginError::RestartFailed => "jellyfin restart (memory_guard recovery) failed"@,
        PluginError::ClockUnavailable => "system clock is outside the range of archive timestamps"@,
    }
}

/// `prefix`, then `name`, then `suffix`.
fn quoted(prefix: &str, name: &String, suffix: &str) -> (r: String)
    ensures
        r@ == prefix@ + name@ + suffix@,
{
    let mut r = String::from_str(prefix);
    r.append(name.as_str());
    r.append(suffix);
    r
}

impl PluginError {
    /// The message this error reports.
    pub fn message(&self) -> (m: String)
        ensures
            m@ == error_message(*self),
    {
        match self {
            PluginError::VmidRequired => String::from_str("`vmid` is required when runtime=lxc"),
            PluginError::ConfigNotDirectory(p) => quoted("config path '", p, "' is not a directory"),
            PluginError::TarballNotFound(p) => quoted("backup tarball '", p, "' not found"),
            PluginError::EndpointNotRegistered(n) => quoted(
                "jellyfin endpoint '",
                n,
                "' not registered",
            ),
            PluginError::EndpointDisabled(n) => quoted("jellyfin endpoint '", n, "' is disabled"),
            PluginError::RestartFailed => String::from_str(
                "jellyfin restart (memory_guard recovery) failed",
            ),
            PluginError::ClockUnavailable => String::from_str(
                "system clock is outside the range of archive timestamps",
            ),
        }
    }
}

} // verus!
