//! Release assets and the filename heuristics that classify them.
//!
//! A platform or architecture is read off an asset's filename by scanning a
//! fixed, ordered table of `-token` substrings; the first hit wins and a
//! miss classifies as `Unknown`. The scan order is part of the contract:
//! architecture tokens are tried as `amd64`, `x64`, `x86_64`, `arm`,
//! `aarch64`, `arm64`, platform tokens as `linux`, `darwin`, `macos`,
//! `windows`, a platform token only counting when followed by `-` or `.`.
use vstd::prelude::*;
use vstd::string::StrSliceExecFns;

use crate::text::contains_substring;
use crate::text::find_first_char;
use crate::text::find_last_char;
use crate::text::spec_contains_sub;

verus! {

/// An operating system a release asset may target.
#[derive(Clone, Copy, Debug, PartialEq, Eq, Structural)]
pub enum Platform {
    Windows,
    Darwin,
    Linux,
    Unknown,
}

/// A processor architecture a release asset may target.
#[derive(Clone, Copy, Debug, PartialEq, Eq, Structural)]
pub enum Architecture {
    Amd64,
    Arm,
    Arm64,
    Unknown,
}

/// The canonical label of a platform, as it appears in filenames.
pub open spec fn spec_platform_label(p: Platform) -> Seq<char> {
    match p {
        Platform::Windows => "windows"@,
        Platform::Darwin => "darwin"@,
        Platform::Linux => "linux"@,
        Platform::Unknown => "unknown"@,
    }
}

/// The canonical label of an architecture, as it appears in filenames.
pub open spec fn spec_architecture_label(a: Architecture) -> Seq<char> {
    match a {
        Architecture::Amd64 => "amd64"@,
        Architecture::Arm => "arm"@,
        Architecture::Arm64 => "aarch64"@,
        Architecture::Unknown => "unknown"@,
    }
}

impl Platform {
    /// The canonical label of this platform.
    pub fn label(&self) -> (r: &'static str)
        ensures
            r@ == spec_platform_label(*self),
    {
        match self {
            Platform::Windows => "windows",
            Platform::Darwin => "darwin",
            Platform::Linux => "linux",
            Platform::Unknown => "unknown",
        }
    }
}

impl Architecture {
    /// The canonical label of this architecture.
    pub fn label(&self) -> (r: &'static str)
        ensures
            r@ == spec_architecture_label(*self),
    {
        match self {
            Architecture::Amd64 => "amd64",
            Architecture::Arm => "arm",
            Architecture::Arm64 => "aarch64",
            Architecture::Unknown => "unknown",
        }
    }
}

/// The architecture read off a filename: the first `-token` hit in the
/// fixed scan order, else `Unknown`.
pub open spec fn spec_architecture_of(name: Seq<char>) -> Architecture {
    if spec_contains_sub(name, "-amd64"@) || spec_contains_sub(name, "-x64"@)
        || spec_contains_sub(name, "-x86_64"@) {
        Architecture::Amd64
    } else if spec_contains_sub(name, "-arm"@) {
        Architecture::Arm
    } else if spec_contains_sub(name, "-aarch64"@) || spec_contains_sub(name, "-arm64"@) {
        Architecture::Arm64
    } else {
        Architecture::Unknown
    }
}

/// The platform read off a filename: the first `-token-` or `-token.` hit
/// in the fixed scan order, else `Unknown`.
pub open spec fn spec_platform_of(name: Seq<char>) -> Platform {
    if spec_contains_sub(name, "-linux-"@) || spec_contains_sub(name, "-linux."@) {
        Platform::Linux
    } else if spec_contains_sub(name, "-darwin-"@) || spec_contains_sub(name, "-darwin."@)
        || spec_contains_sub(name, "-macos-"@) || spec_contains_sub(name, "-macos."@) {
        Platform::Darwin
    } else if spec_contains_sub(name, "-windows-"@) || spec_contains_sub(name, "-windows."@) {
        Platform::Windows
    } else {
        Platform::Unknown
    }
}

/// Classifies a filename's architecture by the ordered token table.
pub fn parse_architecture(name: &str) -> (r: Architecture)
    ensures
        r == spec_architecture_of(name@),
{
    if contains_substring(name, "-amd64") || contains_substring(name, "-x64") || contains_substring(
        name,
        "-x86_64",
    ) {
        Architecture::Amd64
    } else if contains_substring(name, "-arm") {
        Architecture::Arm
    } else if contains_substring(name, "-aarch64") || contains_substring(name, "-arm64") {
        Architecture::Arm64
    } else {
        Architecture::Unknown
    }
}

/// Classifies a filename's platform by the ordered token table.
pub fn parse_platform(name: &str) -> (r: Platform)
    ensures
        r == spec_platform_of(name@),
{
    if contains_substring(name, "-linux-") || contains_substring(name, "-linux.") {
        Platform::Linux
    } else if contains_substring(name, "-darwin-") || contains_substring(name, "-darwin.")
        || contains_substring(name, "-macos-") || contains_substring(name, "-macos.") {
        Platform::Darwin
    } else if contains_substring(name, "-windows-") || contains_substring(name, "-windows.") {
        Platform::Windows
    } else {
        Platform::Unknown
    }
}

/// Relies on `rood::sys::Platform::detect`: the platform of the running
/// machine. Nothing is assumed about which platform comes back.
#[verifier::external_body]
pub fn detect_platform() -> Platform {
    match rood::sys::Platform::detect() {
        rood::sys::Platform::Windows => Platform::Windows,
        rood::sys::Platform::Darwin => Platform::Darwin,
        rood::sys::Platform::Linux => Platform::Linux,
        rood::sys::Platform::Unknown => Platform::Unknown,
    }
}

/// Relies on `rood::sys::Architecture::detect`: the architecture of the
/// running machine. Nothing is assumed about which architecture comes back.
#[verifier::external_body]
pub fn detect_architecture() -> Architecture {
    match rood::sys::Architecture::detect() {
        rood::sys::Architecture::Amd64 => Architecture::Amd64,
        rood::sys::Architecture::Arm => Architecture::Arm,
        rood::sys::Architecture::Arm64 => Architecture::Arm64,
        rood::sys::Architecture::Unknown => Architecture::Unknown,
    }
}

/// The mathematical value of an asset: its filename and download URL.
pub struct AssetView {
    pub name: Seq<char>,
    pub url: Seq<char>,
}

/// One downloadable file attached to a release.
#[derive(Debug)]
pub struct Asset {
    pub name: String,
    pub browser_download_url: String,
}

impl View for Asset {
    type V = AssetView;

    open spec fn view(&self) -> AssetView {
        AssetView { name: self.name@, url: self.browser_download_url@ }
    }
}

impl Clone for Asset {
    fn clone(&self) -> (r: Self)
        ensures
            r@ == self@,
    {
        Asset { name: self.name.clone(), browser_download_url: self.browser_download_url.clone() }
    }
}

/// The filename up to (not including) its first `.`, or all of it when it
/// has none.
pub open spec fn spec_strip_extension(name: Seq<char>) -> Seq<char> {
    match name.index_of_first('.') {
        Some(i) => name.subrange(0, i),
        None => name,
    }
}

/// The filename after its last `.`, empty when it has none.
pub open spec fn spec_extension(name: Seq<char>) -> Seq<char> {
    match name.index_of_last('.') {
        Some(i) => name.subrange(i + 1, name.len() as int),
        None => Seq::empty(),
    }
}

/// The logical name: the extension-stripped filename up to its first `-`.
pub open spec fn spec_logical_name(name: Seq<char>) -> Seq<char> {
    let stripped = spec_strip_extension(name);
    match stripped.index_of_first('-') {
        Some(i) => stripped.subrange(0, i),
        None => stripped,
    }
}

/// The filename with its extension(s) stripped.
pub(crate) fn strip_extension_of(name: &str) -> (r: &str)
    ensures
        r@ == spec_strip_extension(name@),
{
    proof {
        name@.index_of_first_ensures('.');
    }
    match find_first_char(name, '.') {
        Some(i) => name.substring_char(0, i),
        None => name,
    }
}

/// The filename's extension, empty when it has none.
pub fn extension_of(name: &str) -> (r: &str)
    ensures
        r@ == spec_extension(name@),
{
    proof {
        name@.index_of_last_ensures('.');
    }
    let len = name.unicode_len();
    match find_last_char(name, '.') {
        Some(i) => name.substring_char(i + 1, len),
        None => {
            let empty = "";
            proof {
                reveal_strlit("");
                assert(empty@ =~= Seq::<char>::empty());
            }
            empty
        },
    }
}

/// The logical name embedded in a filename: the extension-stripped text up
/// to its first `-`.
pub fn logical_name_of(name: &str) -> (r: &str)
    ensures
        r@ == spec_logical_name(name@),
{
    let stripped = strip_extension_of(name);
    proof {
        stripped@.index_of_first_ensures('-');
    }
    match find_first_char(stripped, '-') {
        Some(i) => stripped.substring_char(0, i),
        None => stripped,
    }
}

impl Asset {
    /// The filename's extension, empty when it has none.
    pub fn extension(&self) -> (r: &str)
        ensures
            r@ == spec_extension(self.name@),
    {
        extension_of(self.name.as_str())
    }

    /// The logical name of the artifact this asset carries.
    pub fn name(&self) -> (r: &str)
        ensures
            r@ == spec_logical_name(self.name@),
    {
        logical_name_of(self.name.as_str())
    }

    /// The architecture this asset was built for, read off its filename.
    pub fn architecture(&self) -> (r: Architecture)
        ensures
            r == spec_architecture_of(self.name@),
    {
        parse_architecture(self.name.as_str())
    }

    /// The platform this asset was built for, read off its filename.
    pub fn platform(&self) -> (r: Platform)
        ensures
            r == spec_platform_of(self.name@),
    {
        parse_platform(self.name.as_str())
    }
}

} // verus!
