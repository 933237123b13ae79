//! Repository references: an `owner/name` pair parsed out of a URL-like
//! string, and the release-listing URLs built from it.
use vstd::prelude::*;
use vstd::string::StringExecFns;

use crate::error::BinmanError;
use crate::error::BinmanResult;
use crate::error::Cause;
use crate::text::spec_split;
use crate::text::split_string;

verus! {

/// A release source, identified by owner and repository name.
#[derive(Debug)]
pub struct Repository {
    pub name: String,
    pub owner: String,
}

impl Repository {
    /// Builds a reference from its two parts.
    pub fn new(name: &str, owner: &str) -> (r: Repository)
        ensures
            r.name@ == name@,
            r.owner@ == owner@,
    {
        Repository { name: name.to_owned(), owner: owner.to_owned() }
    }

    /// Parses a reference out of a URL-like string: the last `/`-delimited
    /// segment is the name, the one before it the owner; fewer than two
    /// segments is an invalid reference.
    pub fn from_url(url: &str) -> (r: BinmanResult<Repository>)
        ensures
            match r {
                Ok(repo) => {
                    let segments = spec_split(url@, '/');
                    &&& segments.len() >= 2
                    &&& repo.name@ == segments[segments.len() - 1]
                    &&& repo.owner@ == segments[segments.len() - 2]
                },
                Err(e) => spec_split(url@, '/').len() < 2 && e.cause == Cause::InvalidData,
            },
    {
        let segments = split_string(url, '/');
        let n = segments.len();
        if n < 2 {
            return Err(BinmanError::new(Cause::InvalidData, "reference is invalid"));
        }
        Ok(Repository::new(segments[n - 1].as_str(), segments[n - 2].as_str()))
    }

    /// The URL listing every release of this repository.
    pub fn releases_url(&self) -> (r: String)
        ensures
            r@ == "https://api.github.com/repos/"@ + self.owner@ + "/"@ + self.name@ + "/releases"@,
    {
        let mut out = String::new();
        out.append("https://api.github.com/repos/");
        out.append(self.owner.as_str());
        out.append("/");
        out.append(self.name.as_str());
        out.append("/releases");
        proof {
            assert(out@ =~= "https://api.github.com/repos/"@ + self.owner@ + "/"@ + self.name@
                + "/releases"@);
        }
        out
    }

    /// The URL of this repository's latest release.
    pub fn latest_release_url(&self) -> (r: String)
        ensures
            r@ == "https://api.github.com/repos/"@ + self.owner@ + "/"@ + self.name@
                + "/releases/latest"@,
    {
        let mut out = String::new();
        out.append("https://api.github.com/repos/");
        out.append(self.owner.as_str());
        out.append("/");
        out.append(self.name.as_str());
        out.append("/releases/latest");
        proof {
            assert(out@ =~= "https://api.github.com/repos/"@ + self.owner@ + "/"@ + self.name@
                + "/releases/latest"@);
        }
        out
    }
}

} // verus!
