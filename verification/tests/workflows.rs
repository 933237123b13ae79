use binman::asset::{Architecture, Asset, Platform};
use binman::checksum::{check_digest, parse_checksum_manifest, to_hex_lower, verify_manifest};
use binman::config::{default_code_host, default_install_location};
use binman::fuzzy_semver::{parse_version_fuzzy, Version};
use binman::install::{
    ensure_not_installed, find_release, join_path, resolve_install_url, scratch_action,
    scratch_file_name, validate_status, ScratchAction,
};
use binman::release::{select_assets, Release};
use binman::repository::Repository;
use binman::state::{State, StateEntry};
use binman::uninstall::uninstall_plan;
use binman::update::should_update;
use binman::Cause;

const HELLO_WORLD_SHA256: &str =
    "b94d27b9934d3e08a52e52d7da7dabfac484efe37a5380ee9088f7ace2efcde9";

fn asset(name: &str) -> Asset {
    Asset {
        name: String::from(name),
        browser_download_url: String::from("https://example.invalid/download"),
    }
}

#[test]
fn reference_parsing_extracts_last_two_segments() {
    let repo = Repository::from_url("host/owner/repo").unwrap();
    assert_eq!(repo.owner, "owner");
    assert_eq!(repo.name, "repo");
    let short = Repository::from_url("owner/repo").unwrap();
    assert_eq!(short.owner, "owner");
    assert_eq!(short.name, "repo");
}

#[test]
fn reference_without_two_segments_is_invalid() {
    let e = Repository::from_url("justaname").unwrap_err();
    assert_eq!(e.cause, Cause::InvalidData);
    let e = Repository::from_url("").unwrap_err();
    assert_eq!(e.cause, Cause::InvalidData);
}

#[test]
fn release_urls_are_filled_templates() {
    let repo = Repository::new("tool", "owner");
    assert_eq!(
        repo.releases_url(),
        "https://api.github.com/repos/owner/tool/releases"
    );
    assert_eq!(
        repo.latest_release_url(),
        "https://api.github.com/repos/owner/tool/releases/latest"
    );
}

#[test]
fn bare_reference_gets_default_host_prefix() {
    assert_eq!(resolve_install_url("tool", "github.com/purposed"), "github.com/purposed/tool");
    assert_eq!(resolve_install_url("owner/tool", "github.com/purposed"), "owner/tool");
}

#[test]
fn defaults_are_fixed() {
    assert_eq!(default_code_host(), "github.com/purposed");
    assert_eq!(default_install_location(), "~/bin");
}

#[test]
fn status_404_is_not_found() {
    let e = validate_status(404).unwrap_err();
    assert_eq!(e.cause, Cause::NotFound);
    assert!(validate_status(200).is_ok());
    assert!(validate_status(500).is_ok());
}

#[test]
fn find_release_matches_fuzzy_tag() {
    let releases = vec![
        Release { tag_name: String::from("0.9.0"), assets: Vec::new() },
        Release { tag_name: String::from("v1.2.3"), assets: vec![asset("tool-linux-amd64")] },
    ];
    let target = parse_version_fuzzy("1.2.3").unwrap();
    let found = find_release(&releases, &target).unwrap();
    assert_eq!(found.tag_name, "v1.2.3");
    let missing = find_release(&releases, &Version::new(2, 0, 0));
    assert!(missing.is_none());
}

#[test]
fn scratch_names_follow_classification() {
    assert_eq!(scratch_file_name(&asset("tool-linux-amd64")), "tool-linux-amd64");
    assert_eq!(scratch_file_name(&asset("tool-linux-amd64.tar.gz")), "tool-linux-amd64.gz");
    assert_eq!(scratch_file_name(&asset("mystery")), "mystery-unknown-unknown");
}

#[test]
fn scratch_actions_by_extension() {
    assert!(matches!(scratch_action("tool-linux-amd64.sha256"), ScratchAction::VerifyChecksum));
    assert!(matches!(scratch_action("tool-linux-amd64.md5"), ScratchAction::SkipChecksum));
    match scratch_action("tool-linux-amd64") {
        ScratchAction::Install(name) => assert_eq!(name, "tool"),
        _ => panic!("expected an install action"),
    }
    match scratch_action("tool-linux-amd64.gz") {
        ScratchAction::Install(name) => assert_eq!(name, "tool.gz"),
        _ => panic!("expected an install action"),
    }
}

#[test]
fn hex_rendering_is_lower_case_two_digits_per_byte() {
    assert_eq!(to_hex_lower(&vec![0xbeu8, 0xef, 0x00, 0x1a]), "beef001a");
    assert_eq!(to_hex_lower(&Vec::new()), "");
}

#[test]
fn checksum_manifest_tokens() {
    let (digest, file) = parse_checksum_manifest("abc123  file.bin\n").unwrap();
    assert_eq!(digest, "abc123");
    assert_eq!(file, "file.bin");
    let e = parse_checksum_manifest("   \n").unwrap_err();
    assert_eq!(e.cause, Cause::InvalidState);
}

#[test]
fn matching_digest_verifies() {
    let data: Vec<u8> = b"hello world".to_vec();
    assert!(check_digest(HELLO_WORLD_SHA256, &data));
    let manifest = format!("{}  file.bin", HELLO_WORLD_SHA256);
    let target = verify_manifest(&manifest, &data).unwrap();
    assert_eq!(target, "file.bin");
}

#[test]
fn mismatched_digest_fails_checksum() {
    let data: Vec<u8> = b"hello world!".to_vec();
    assert!(!check_digest(HELLO_WORLD_SHA256, &data));
    let manifest = format!("{}  file.bin", HELLO_WORLD_SHA256);
    let e = verify_manifest(&manifest, &data).unwrap_err();
    assert_eq!(e.cause, Cause::InvalidState);
}

#[test]
fn install_scenario_latest_linux_amd64() {
    // The catalog answer: one release tagged v1.2.3 with one Linux/amd64 asset.
    let release = Release {
        tag_name: String::from("v1.2.3"),
        assets: vec![asset("tool-linux-amd64")],
    };
    let install_dir = "/home/user/bin";

    // Resolve the reference and open the (empty) state.
    let used_url = resolve_install_url("owner/tool", "github.com/purposed");
    assert_eq!(used_url, "owner/tool");
    let repo = Repository::from_url(&used_url).unwrap();
    assert_eq!(repo.name, "tool");
    let mut state = State::new("/tmp/state.json");
    ensure_not_installed(&state, &repo.name).unwrap();

    // Select the platform assets and plan the artifact placement.
    let picked = select_assets(&release.assets, Platform::Linux, Architecture::Amd64);
    assert_eq!(picked.len(), 1);
    let staged = scratch_file_name(&picked[0]);
    assert_eq!(staged, "tool-linux-amd64");
    let final_path = match scratch_action(&staged) {
        ScratchAction::Install(name) => join_path(install_dir, &name),
        _ => panic!("expected an install action"),
    };
    assert_eq!(final_path, "/home/user/bin/tool");

    // Commit the record.
    let new_entry = StateEntry {
        name: repo.name.clone(),
        artifacts: vec![final_path],
        url: used_url,
        version: release.version(),
    };
    state.insert(new_entry).unwrap();

    let got = state.get("tool").unwrap();
    assert_eq!(got.version.render(), "1.2.3");
    assert_eq!(got.artifacts, vec![String::from("/home/user/bin/tool")]);
}

#[test]
fn install_rejected_when_already_installed() {
    let mut state = State::new("/tmp/state.json");
    state
        .insert(StateEntry {
            name: String::from("tool"),
            artifacts: vec![String::from("/bin/tool")],
            url: String::from("owner/tool"),
            version: Version::new(1, 0, 0),
        })
        .unwrap();
    let e = ensure_not_installed(&state, "tool").unwrap_err();
    assert_eq!(e.cause, Cause::AlreadyExists);
}

#[test]
fn update_scenario_same_version_does_nothing() {
    let installed = parse_version_fuzzy("1.0.0").unwrap();
    let latest = Release { tag_name: String::from("1.0.0"), assets: Vec::new() };
    assert!(!should_update(&installed, &latest.version(), false));
}

#[test]
fn update_runs_for_newer_version_or_force() {
    let installed = parse_version_fuzzy("1.0.0").unwrap();
    let newer = parse_version_fuzzy("1.1.0").unwrap();
    assert!(should_update(&installed, &newer, false));
    assert!(should_update(&installed, &installed, true));
    // downgrades are not updates
    assert!(!should_update(&newer, &installed, false));
}

#[test]
fn uninstall_scenario_absent_name_fails() {
    let state = State::new("/tmp/state.json");
    let e = uninstall_plan(&state, "ghost").unwrap_err();
    assert_eq!(e.cause, Cause::NotFound);
    assert_eq!(state.list().len(), 0);
}

#[test]
fn uninstall_plan_lists_every_artifact() {
    let mut state = State::new("/tmp/state.json");
    state
        .insert(StateEntry {
            name: String::from("tool"),
            artifacts: vec![String::from("/bin/tool"), String::from("/bin/tool-helper")],
            url: String::from("owner/tool"),
            version: Version::new(1, 0, 0),
        })
        .unwrap();
    let paths = uninstall_plan(&state, "tool").unwrap();
    assert_eq!(paths, vec![String::from("/bin/tool"), String::from("/bin/tool-helper")]);
}
