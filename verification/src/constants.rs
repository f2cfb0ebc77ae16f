//! Well-known paths under the user's home directory: the SSH directory,
//! the base config file, the generated config fragment, the key-storage
//! directory, and the `Include` directive that ties them together.
//!
//! The home directory itself comes from the environment, so the functions
//! without a path parameter return `Option` and promise only the shape of
//! a present result; the `_in` functions state the exact text they build.

use vstd::prelude::*;
use vstd::string::*;

use crate::outside::home_dir_string;

verus! {

/// The SSH directory under a home directory.
pub open spec fn spec_ssh_dir(home: Seq<char>) -> Seq<char> {
    home + "/.ssh"@
}

/// The SSH directory path under the given home directory.
pub fn ssh_dir_in(home: &str) -> (r: String)
    ensures
        r@ == spec_ssh_dir(home@),
{
    let mut s = String::from_str(home);
    s.append("/.ssh");
    s
}

/// The user's SSH directory (e.g. `$HOME/.ssh`), or `None` when the home
/// directory cannot be determined.
pub fn ssh_dir() -> (r: Option<String>)
    ensures
        r is Some ==> exists|h: Seq<char>| r->Some_0@ == #[trigger] spec_ssh_dir(h),
{
    match home_dir_string() {
        Some(home) => {
            let d = ssh_dir_in(home.as_str());
            proof {
                assert(d@ == spec_ssh_dir(home@));
            }
            Some(d)
        },
        None => None,
    }
}

/// The base SSH config file path under the given SSH directory.
pub fn ssh_base_config_file_path_in(ssh: &str) -> (r: String)
    ensures
        r@ == ssh@ + "/config"@,
{
    let mut s = String::from_str(ssh);
    s.append("/config");
    s
}

/// The user's base SSH config file path (e.g. `$HOME/.ssh/config`), or
/// `None` when the home directory cannot be determined.
pub fn ssh_base_config_file_path() -> (r: Option<String>)
    ensures
        r is Some ==> exists|h: Seq<char>| r->Some_0@ == #[trigger] spec_ssh_dir(h) + "/config"@,
{
    match ssh_dir() {
        Some(d) => Some(ssh_base_config_file_path_in(d.as_str())),
        None => None,
    }
}

/// The key-storage directory path under the given SSH directory.
pub fn ssh_config_key_folder_path_in(ssh: &str) -> (r: String)
    ensures
        r@ == ssh@ + "/ssh_agent_sync"@,
{
    let mut s = String::from_str(ssh);
    s.append("/ssh_agent_sync");
    s
}

/// The key-storage directory path (e.g. `$HOME/.ssh/ssh_agent_sync`), or
/// `None` when the home directory cannot be determined.
pub fn ssh_config_key_folder_path() -> (r: Option<String>)
    ensures
        r is Some ==> exists|h: Seq<char>|
            r->Some_0@ == #[trigger] spec_ssh_dir(h) + "/ssh_agent_sync"@,
{
    match ssh_dir() {
        Some(d) => Some(ssh_config_key_folder_path_in(d.as_str())),
        None => None,
    }
}

/// The generated config fragment's path under the given SSH directory.
pub fn ssh_config_file_path_in(ssh: &str) -> (r: String)
    ensures
        r@ == ssh@ + "/config.ssh_agent_sync"@,
{
    let mut s = String::from_str(ssh);
    s.append("/config.ssh_agent_sync");
    s
}

/// The generated config fragment's path (e.g.
/// `$HOME/.ssh/config.ssh_agent_sync`), or `None` when the home directory
/// cannot be determined.
pub fn ssh_config_file_path() -> (r: Option<String>)
    ensures
        r is Some ==> exists|h: Seq<char>|
            r->Some_0@ == #[trigger] spec_ssh_dir(h) + "/config.ssh_agent_sync"@,
{
    match ssh_dir() {
        Some(d) => Some(ssh_config_file_path_in(d.as_str())),
        None => None,
    }
}

/// The `Include` directive pointing at the given generated config path.
pub fn ssh_base_include_line_in(config_path: &str) -> (r: String)
    ensures
        r@ == "Include "@ + config_path@,
{
    let mut s = String::from_str("Include ");
    s.append(config_path);
    s
}

/// The `Include` directive for the user's generated config fragment, or
/// `None` when the home directory cannot be determined.
pub fn ssh_base_include_line() -> (r: Option<String>)
    ensures
        r is Some ==> exists|h: Seq<char>|
            r->Some_0@ == "Include "@ + (#[trigger] spec_ssh_dir(h)
                + "/config.ssh_agent_sync"@),
{
    match ssh_config_file_path() {
        Some(p) => Some(ssh_base_include_line_in(p.as_str())),
        None => None,
    }
}

} // verus!
