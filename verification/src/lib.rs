//! Verified core of a binary package manager that installs, updates and
//! removes prebuilt binaries published as release assets: version
//! resolution, repository references, platform/architecture asset selection,
//! checksum verification, archive-kind dispatch and the persisted
//! installation state.
pub mod archive;
pub mod asset;
pub mod checksum;
pub mod config;
pub mod error;
pub mod fuzzy_semver;
pub mod install;
pub mod release;
pub mod repository;
pub mod state;
pub mod text;
pub mod uninstall;
pub mod update;

pub use config::Config;
pub use error::BinmanError;
pub use error::BinmanResult;
pub use error::Cause;
pub use fuzzy_semver::parse_version_fuzzy;
pub use state::State;
pub use state::StateEntry;
