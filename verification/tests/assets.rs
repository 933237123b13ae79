use binman::archive::{get_compression, CompressionType};
use binman::asset::{parse_architecture, parse_platform, Architecture, Asset, Platform};
use binman::release::{select_assets, Release};

fn asset(name: &str) -> Asset {
    Asset {
        name: String::from(name),
        browser_download_url: String::from("https://example.invalid/download"),
    }
}

#[test]
fn classification_is_deterministic() {
    let a = asset("tool-linux-amd64.tar.gz");
    for _ in 0..3 {
        assert_eq!(a.platform(), Platform::Linux);
        assert_eq!(a.architecture(), Architecture::Amd64);
        assert_eq!(a.extension(), "gz");
        assert_eq!(a.name(), "tool");
    }
}

#[test]
fn platform_tokens_need_a_separator() {
    assert_eq!(parse_platform("tool-linux-amd64"), Platform::Linux);
    assert_eq!(parse_platform("tool-darwin.zip"), Platform::Darwin);
    assert_eq!(parse_platform("tool-macos-aarch64"), Platform::Darwin);
    assert_eq!(parse_platform("tool-windows.exe"), Platform::Windows);
    // a trailing token without `-` or `.` after it does not classify
    assert_eq!(parse_platform("tool-linux"), Platform::Unknown);
    assert_eq!(parse_platform("toolbox"), Platform::Unknown);
}

#[test]
fn architecture_tokens_scan_in_order() {
    assert_eq!(parse_architecture("tool-linux-amd64"), Architecture::Amd64);
    assert_eq!(parse_architecture("tool-linux-x86_64"), Architecture::Amd64);
    assert_eq!(parse_architecture("tool-linux-aarch64"), Architecture::Arm64);
    // `-arm` is scanned before the arm64 tokens, so `-arm64` reads as Arm
    assert_eq!(parse_architecture("tool-linux-arm64"), Architecture::Arm);
    assert_eq!(parse_architecture("tool-linux-arm"), Architecture::Arm);
    assert_eq!(parse_architecture("tool-linux"), Architecture::Unknown);
}

#[test]
fn extension_and_logical_name_edges() {
    let none = asset("toolname");
    assert_eq!(none.extension(), "");
    assert_eq!(none.name(), "toolname");
    let dotted = asset("tool-1.2.3-linux-amd64.tar.gz");
    assert_eq!(dotted.extension(), "gz");
    assert_eq!(dotted.name(), "tool");
}

#[test]
fn selection_filters_platform_and_architecture() {
    let assets = vec![
        asset("tool-linux-amd64"),
        asset("tool-darwin-amd64"),
        asset("tool-linux-aarch64"),
    ];
    let picked = select_assets(&assets, Platform::Linux, Architecture::Amd64);
    assert_eq!(picked.len(), 1);
    assert_eq!(picked[0].name, "tool-linux-amd64");
}

#[test]
fn selection_never_crosses_architecture_off_darwin_arm() {
    let assets = vec![asset("tool-linux-aarch64"), asset("tool-darwin-amd64")];
    let picked = select_assets(&assets, Platform::Linux, Architecture::Amd64);
    assert_eq!(picked.len(), 0);
}

#[test]
fn darwin_arm64_prefers_native_assets() {
    let assets = vec![asset("tool-darwin-aarch64"), asset("tool-darwin-amd64")];
    let picked = select_assets(&assets, Platform::Darwin, Architecture::Arm64);
    assert_eq!(picked.len(), 1);
    assert_eq!(picked[0].name, "tool-darwin-aarch64");
}

#[test]
fn darwin_arm64_falls_back_to_amd64_only_without_native() {
    let assets = vec![asset("tool-darwin-amd64"), asset("tool-linux-amd64")];
    let picked = select_assets(&assets, Platform::Darwin, Architecture::Arm64);
    assert_eq!(picked.len(), 1);
    assert_eq!(picked[0].name, "tool-darwin-amd64");
}

#[test]
fn release_version_fallback_for_bad_tag() {
    let rel = Release { tag_name: String::from("nightly build"), assets: Vec::new() };
    let v = rel.version();
    assert_eq!(v.major, 0);
    assert_eq!(v.minor, 0);
    assert_eq!(v.patch, 0);
    assert_eq!(v.pre, "nightly build");
    // the fallback always precedes any release with a nonzero triple
    assert!(v.precedes(&binman::fuzzy_semver::Version::new(0, 0, 1)));
}

#[test]
fn release_version_reads_fuzzy_tag() {
    let rel = Release { tag_name: String::from("v1.2.3"), assets: Vec::new() };
    let v = rel.version();
    assert_eq!(v.major, 1);
    assert_eq!(v.minor, 2);
    assert_eq!(v.patch, 3);
}

#[test]
fn compression_mapping_is_exact() {
    assert_eq!(get_compression("zip"), Some(CompressionType::Zip));
    assert_eq!(get_compression("txz"), Some(CompressionType::Tarball));
    assert_eq!(get_compression("tgz"), Some(CompressionType::Tarball));
    assert_eq!(get_compression("gz"), Some(CompressionType::Tarball));
    assert_eq!(get_compression("xz"), Some(CompressionType::Tarball));
    assert_eq!(get_compression("zst"), Some(CompressionType::Zstd));
    assert_eq!(get_compression("exe"), None);
    assert_eq!(get_compression(""), None);
    assert_eq!(get_compression("tar"), None);
}
