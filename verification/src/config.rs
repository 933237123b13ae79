//! The configuration values the workflows consume: the default code host,
//! the install directory and the state-file path. Loading and saving the
//! configuration file is the callers' side; the defaults for the first two
//! values are fixed here.
use vstd::prelude::*;
use vstd::string::StringExecFns;

verus! {

/// The three strings the workflows need.
pub struct Config {
    pub default_code_host: String,
    pub install_location: String,
    pub state_file_path: String,
}

/// The code host assumed when a reference names no host.
pub fn default_code_host() -> (r: String)
    ensures
        r@ == "github.com/purposed"@,
{
    let mut out = String::new();
    out.append("github.com/purposed");
    proof {
        assert(out@ =~= "github.com/purposed"@);
    }
    out
}

/// The directory binaries are installed into by default.
pub fn default_install_location() -> (r: String)
    ensures
        r@ == "~/bin"@,
{
    let mut out = String::new();
    out.append("~/bin");
    proof {
        assert(out@ =~= "~/bin"@);
    }
    out
}

impl Config {
    /// A configuration from its three values.
    pub fn from_values(default_code_host: &str, install_location: &str, state_file_path: &str) -> (r:
        Config)
        ensures
            r.default_code_host@ == default_code_host@,
            r.install_location@ == install_location@,
            r.state_file_path@ == state_file_path@,
    {
        Config {
            default_code_host: default_code_host.to_owned(),
            install_location: install_location.to_owned(),
            state_file_path: state_file_path.to_owned(),
        }
    }
}

} // verus!
