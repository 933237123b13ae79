//! The decisions of the install workflow: which URL to query, which
//! release matches the requested version, what each staged file is for,
//! and what the final artifact paths are. Downloading, staging and file
//! placement are the callers' side; every choice they act on is made here.
use vstd::prelude::*;
use vstd::string::StrSliceExecFns;
use vstd::string::StringExecFns;

use crate::asset::Asset;
use crate::asset::extension_of;
use crate::asset::logical_name_of;
use crate::asset::spec_architecture_label;
use crate::asset::spec_architecture_of;
use crate::asset::spec_extension;
use crate::asset::spec_logical_name;
use crate::asset::spec_platform_label;
use crate::asset::spec_platform_of;
use crate::error::BinmanError;
use crate::error::BinmanResult;
use crate::error::Cause;
use crate::fuzzy_semver::Version;
use crate::fuzzy_semver::VersionView;
use crate::fuzzy_semver::spec_resolve;
use crate::release::Release;
use crate::release::ReleaseView;
use crate::state::State;
use crate::state::spec_lookup;
use crate::text::contains_char;
use crate::text::strings_equal;

verus! {

/// The URL actually queried: the reference itself when it names a host or
/// owner, else the default code host prefixed to it.
pub open spec fn spec_resolved_url(reference: Seq<char>, host: Seq<char>) -> Seq<char> {
    if reference.contains('/') {
        reference
    } else {
        host + "/"@ + reference
    }
}

/// Prefixes the default code host to a bare package reference; a reference
/// already containing `/` is used as given.
pub fn resolve_install_url(reference: &str, default_code_host: &str) -> (r: String)
    ensures
        r@ == spec_resolved_url(reference@, default_code_host@),
{
    if contains_char(reference, '/') {
        reference.to_owned()
    } else {
        let mut out = default_code_host.to_owned();
        out.append("/");
        out.append(reference);
        out
    }
}

/// Maps an HTTP status to the catalog outcome: 404 means the repository
/// or owner does not exist, anything else passes.
pub fn validate_status(status: u16) -> (r: BinmanResult<()>)
    ensures
        match r {
            Ok(_) => status != 404,
            Err(e) => status == 404 && e.cause == Cause::NotFound,
        },
{
    if status == 404 {
        Err(BinmanError::new(Cause::NotFound, "repository or owner does not exist"))
    } else {
        Ok(())
    }
}

/// The views of a sequence of releases.
pub open spec fn spec_release_views(s: Seq<Release>) -> Seq<ReleaseView> {
    s.map_values(|r: Release| r@)
}

/// Whether a release's tag resolves to exactly the requested version.
pub open spec fn spec_release_matches(rv: ReleaseView, v: VersionView) -> bool {
    spec_resolve(rv.tag) == Some(v)
}

/// The first release whose tag resolves to the requested version, if any.
pub open spec fn spec_find_release(rs: Seq<ReleaseView>, v: VersionView) -> Option<ReleaseView>
    decreases rs.len(),
{
    if rs.len() == 0 {
        None
    } else if spec_release_matches(rs[0], v) {
        Some(rs[0])
    } else {
        spec_find_release(rs.skip(1), v)
    }
}

/// Finds the first release whose tag resolves to the requested version.
pub fn find_release(releases: &Vec<Release>, target: &Version) -> (r: Option<Release>)
    ensures
        match r {
            Some(rel) => spec_find_release(spec_release_views(releases@), target@) == Some(rel@),
            None => spec_find_release(spec_release_views(releases@), target@) is None,
        },
{
    let ghost rs = spec_release_views(releases@);
    let mut i: usize = 0;
    proof {
        assert(rs.skip(0) =~= rs);
    }
    while i < releases.len()
        invariant
            i <= releases@.len(),
            rs == spec_release_views(releases@),
            rs.len() == releases@.len(),
            spec_find_release(rs, target@) == spec_find_release(rs.skip(i as int), target@),
        decreases releases@.len() - i,
    {
        proof {
            assert(rs.skip(i as int)[0] == rs[i as int]);
            assert(rs[i as int] == releases@[i as int]@);
        }
        let matched = match releases[i].parsed_version() {
            Ok(pv) => &pv == target,
            Err(_) => false,
        };
        if matched {
            let rel = releases[i].clone();
            assert(spec_find_release(rs.skip(i as int), target@) == Some(rs[i as int]));
            return Some(rel);
        }
        proof {
            assert(rs.skip(i as int).skip(1) =~= rs.skip(i + 1));
        }
        i = i + 1;
    }
    proof {
        assert(rs.skip(i as int).len() == 0);
    }
    None
}

/// The name a downloaded asset is staged under:
/// `<logicalName>-<platform>-<architecture>`, with the asset's extension
/// appended when it has one.
pub open spec fn spec_scratch_file_name(name: Seq<char>) -> Seq<char> {
    spec_logical_name(name) + "-"@ + spec_platform_label(spec_platform_of(name)) + "-"@
        + spec_architecture_label(spec_architecture_of(name)) + (if spec_extension(name).len() > 0 {
        "."@ + spec_extension(name)
    } else {
        Seq::<char>::empty()
    })
}

/// The staging name for an asset.
pub fn scratch_file_name(asset: &Asset) -> (r: String)
    ensures
        r@ == spec_scratch_file_name(asset@.name),
{
    let mut out = asset.name().to_owned();
    out.append("-");
    out.append(asset.platform().label());
    out.append("-");
    out.append(asset.architecture().label());
    let ext = asset.extension();
    if ext.unicode_len() > 0 {
        out.append(".");
        out.append(ext);
    }
    proof {
        assert(out@ =~= spec_scratch_file_name(asset@.name));
    }
    out
}

/// The final name of an installed artifact: its logical name, with the
/// original extension kept when there is one.
pub open spec fn spec_final_name(name: Seq<char>) -> Seq<char> {
    spec_logical_name(name) + (if spec_extension(name).len() > 0 {
        "."@ + spec_extension(name)
    } else {
        Seq::<char>::empty()
    })
}

/// What to do with one staged file.
pub enum ScratchAction {
    /// A `.sha256` checksum manifest: verify its target, never install it.
    VerifyChecksum,
    /// A `.md5` manifest: recognized but deliberately skipped.
    SkipChecksum,
    /// An artifact: install it under the carried final name.
    Install(String),
}

/// Decides what one staged file is for, by its extension.
pub fn scratch_action(file_name: &str) -> (r: ScratchAction)
    ensures
        (if spec_extension(file_name@) == "sha256"@ {
            r is VerifyChecksum
        } else if spec_extension(file_name@) == "md5"@ {
            r is SkipChecksum
        } else {
            r matches ScratchAction::Install(f) && f@ == spec_final_name(file_name@)
        }),
{
    let ext = extension_of(file_name);
    if strings_equal(ext, "sha256") {
        ScratchAction::VerifyChecksum
    } else if strings_equal(ext, "md5") {
        ScratchAction::SkipChecksum
    } else {
        let mut out = logical_name_of(file_name).to_owned();
        if ext.unicode_len() > 0 {
            out.append(".");
            out.append(ext);
        }
        proof {
            assert(out@ =~= spec_final_name(file_name@));
        }
        ScratchAction::Install(out)
    }
}

/// Joins a directory and a file name with a single separator.
pub fn join_path(dir: &str, file: &str) -> (r: String)
    ensures
        r@ == dir@ + "/"@ + file@,
{
    let mut out = dir.to_owned();
    out.append("/");
    out.append(file);
    out
}

/// Rejects an install whose target name is already recorded in the state.
pub fn ensure_not_installed(state: &State, app_name: &str) -> (r: BinmanResult<()>)
    requires
        state.wf(),
    ensures
        match r {
            Ok(_) => spec_lookup(state.entries_view(), app_name@) is None,
            Err(e) => spec_lookup(state.entries_view(), app_name@) is Some && e.cause
                == Cause::AlreadyExists,
        },
{
    match state.get(app_name) {
        Some(_) => Err(BinmanError::new(Cause::AlreadyExists, "target is already installed")),
        None => Ok(()),
    }
}

} // verus!
