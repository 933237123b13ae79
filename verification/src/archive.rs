//! Archive-kind dispatch: which compression scheme, if any, a file
//! extension denotes. Anything unrecognized is treated as an
//! already-executable artifact, not an archive.
use vstd::prelude::*;

use crate::text::strings_equal;

verus! {

/// A compression scheme a downloaded asset may use.
#[derive(Clone, Copy, Debug, PartialEq, Eq, Structural)]
pub enum CompressionType {
    Zip,
    Tarball,
    Zstd,
}

/// The compression scheme an extension denotes: `zip` is a zip archive,
/// `txz`, `tgz`, `gz` and `xz` are tarballs, `zst` is zstandard, anything
/// else is no archive at all.
pub open spec fn spec_compression_for(ext: Seq<char>) -> Option<CompressionType> {
    if ext == "zip"@ {
        Some(CompressionType::Zip)
    } else if ext == "txz"@ || ext == "tgz"@ || ext == "gz"@ || ext == "xz"@ {
        Some(CompressionType::Tarball)
    } else if ext == "zst"@ {
        Some(CompressionType::Zstd)
    } else {
        None
    }
}

/// Classifies a file extension into its compression scheme, if any.
pub fn get_compression(ext: &str) -> (r: Option<CompressionType>)
    ensures
        r == spec_compression_for(ext@),
{
    if strings_equal(ext, "zip") {
        Some(CompressionType::Zip)
    } else if strings_equal(ext, "txz") || strings_equal(ext, "tgz") || strings_equal(ext, "gz")
        || strings_equal(ext, "xz") {
        Some(CompressionType::Tarball)
    } else if strings_equal(ext, "zst") {
        Some(CompressionType::Zstd)
    } else {
        None
    }
}

} // verus!
