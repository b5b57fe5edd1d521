//! What is read off the host, and what follows from it.
use vstd::prelude::*;
use vstd::string::*;

use crate::network::manager::NetworkManager;
use crate::text::{decimal, decimal_text, parse_u32, parsed_u32, trim, trimmed};

verus! {

/// A path that was either given by the environment, in whatever form it came, or is a standard
/// one.
pub enum Located<P> {
    Given(P),
    Standard(String),
}

/// Where netavark keeps its configuration unless told otherwise.
pub open spec fn standard_config_dir(rootless: bool, uid: u32) -> Seq<char> {
    if rootless {
        "/run/user/"@ + decimal(uid as nat) + "/containers/networks"@
    } else {
        "/run/containers/networks"@
    }
}

/// Where netavark keeps its configuration: as the environment says in `given`, or else in the
/// standard place for the user.
pub fn default_netavark_config_dir<P>(given: Option<P>, rootless: bool, uid: u32) -> (r: Located<P>)
    ensures
        match given {
            Some(path) => r == Located::Given(path),
            None => {
                &&& r matches Located::Standard(path)
                &&& path@ == standard_config_dir(rootless, uid)
                &&& rootless ==> path@ == "/run/user/"@ + decimal(uid as nat)
                    + "/containers/networks"@
                &&& !rootless ==> path@ == "/run/containers/networks"@
            },
        },
{
    match given {
        Some(path) => Located::Given(path),
        None => {
            if rootless {
                Located::Standard(
                    "/run/user/".to_string().concat(decimal_text(uid as u64).as_str()).concat(
                        "/containers/networks",
                    ),
                )
            } else {
                Located::Standard("/run/containers/networks".to_string())
            }
        },
    }
}

/// The usual place of aardvark-dns.
pub const AARDVARK_LIBEXEC: &'static str = "/usr/libexec/podman/aardvark-dns";

/// The other place where aardvark-dns may be.
pub const AARDVARK_BIN: &'static str = "/usr/bin/aardvark-dns";

/// Where aardvark-dns is: as the environment says in `dns_bin`, or else in `bin`, or else in
/// the first of the two places that holds a file, or else in the usual place.
pub fn default_aardvark_bin<P>(
    dns_bin: Option<P>,
    bin: Option<P>,
    in_libexec: bool,
    in_bin: bool,
) -> (r: Located<P>)
    ensures
        match (dns_bin, bin) {
            (Some(path), _) => r == Located::Given(path),
            (None, Some(path)) => r == Located::Given(path),
            (None, None) => {
                &&& r matches Located::Standard(path)
                &&& path@ == (if !in_libexec && in_bin {
                    AARDVARK_BIN@
                } else {
                    AARDVARK_LIBEXEC@
                })
            },
        },
{
    if let Some(path) = dns_bin {
        return Located::Given(path);
    }
    if let Some(path) = bin {
        return Located::Given(path);
    }
    if in_libexec {
        return Located::Standard(AARDVARK_LIBEXEC.to_string());
    }
    if in_bin {
        return Located::Standard(AARDVARK_BIN.to_string());
    }
    Located::Standard(AARDVARK_LIBEXEC.to_string())
}

/// The file in which the DNS daemon leaves its process id.
pub enum PidFile {
    Absent,
    Unreadable,
    Text(String),
}

/// What is left to do about a DNS daemon.
pub struct CleanUp {
    /// The process to kill, if it still runs.
    pub kill: Option<u32>,
    /// Whether to remove the file with the process id.
    pub remove_file: bool,
}

impl NetworkManager {
    /// What to do about the DNS daemon: a file that is there is removed, after the process
    /// that it names, where it names one, has been killed.
    pub fn clean_up(file: &PidFile) -> (r: CleanUp)
        ensures
            r.remove_file == !(file is Absent),
            r.kill == (match file {
                PidFile::Text(text) => parsed_u32(trimmed(text@)),
                _ => None,
            }),
    {
        match file {
            PidFile::Absent => CleanUp { kill: None, remove_file: false },
            PidFile::Unreadable => CleanUp { kill: None, remove_file: true },
            PidFile::Text(text) => {
                let digits = trim(text.as_str());
                CleanUp { kill: parse_u32(digits.as_str()), remove_file: true }
            },
        }
    }
}

} // verus!
