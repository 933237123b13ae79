//! Releases: a tag plus its assets, the version a tag resolves to, and the
//! selection of assets matching the running platform and architecture.
//!
//! A tag that does not resolve even fuzzily is treated, for ordering
//! purposes, as the pre-release version `0.0.0-<tag>`, so that one
//! malformed tag never aborts listing or updating; the fallback applies
//! wherever a release's version is read, the latest-release shortcut
//! included.
use vstd::prelude::*;
use vstd::seq_lib::*;

use crate::asset::Architecture;
use crate::asset::Asset;
use crate::asset::AssetView;
use crate::asset::Platform;
use crate::asset::detect_architecture;
use crate::asset::detect_platform;
use crate::asset::spec_architecture_of;
use crate::asset::spec_platform_of;
use crate::error::BinmanResult;
use crate::error::Cause;
use crate::fuzzy_semver::Version;
use crate::fuzzy_semver::parse_version_fuzzy;
use crate::fuzzy_semver::spec_resolve;

verus! {

/// The views of a sequence of assets.
pub open spec fn spec_asset_views(s: Seq<Asset>) -> Seq<AssetView> {
    s.map_values(|a: Asset| a@)
}

/// The mathematical value of a release: its tag and its assets' values.
pub struct ReleaseView {
    pub tag: Seq<char>,
    pub assets: Seq<AssetView>,
}

/// A tagged, published set of downloadable assets for one version.
#[derive(Debug)]
pub struct Release {
    pub tag_name: String,
    pub assets: Vec<Asset>,
}

impl View for Release {
    type V = ReleaseView;

    open spec fn view(&self) -> ReleaseView {
        ReleaseView { tag: self.tag_name@, assets: spec_asset_views(self.assets@) }
    }
}

impl Clone for Release {
    fn clone(&self) -> (r: Self)
        ensures
            r@ == self@,
    {
        let mut assets: Vec<Asset> = Vec::new();
        let mut i: usize = 0;
        while i < self.assets.len()
            invariant
                i <= self.assets@.len(),
                assets@.len() == i,
                forall|k: int| 0 <= k < i ==> assets@[k]@ == #[trigger] self.assets@[k]@,
            decreases self.assets@.len() - i,
        {
            assets.push(self.assets[i].clone());
            i = i + 1;
        }
        proof {
            assert(spec_asset_views(assets@) =~= spec_asset_views(self.assets@));
        }
        Release { tag_name: self.tag_name.clone(), assets }
    }
}

/// Whether an asset's filename classifies to exactly this platform and
/// architecture.
pub open spec fn spec_matches(p: Platform, a: Architecture) -> spec_fn(AssetView) -> bool {
    |av: AssetView| spec_platform_of(av.name) == p && spec_architecture_of(av.name) == a
}

/// The assets whose classified platform and architecture are exactly the
/// given ones, in their original order.
pub open spec fn spec_matching_assets(assets: Seq<AssetView>, p: Platform, a: Architecture) -> Seq<
    AssetView,
> {
    assets.filter(spec_matches(p, a))
}

/// What selection yields: on Darwin/Arm64 the Arm64 matches when any
/// exist, else the Amd64 matches; on every other pair only the exact
/// matches.
pub open spec fn spec_select(assets: Seq<AssetView>, p: Platform, a: Architecture) -> Seq<
    AssetView,
> {
    if p == Platform::Darwin && a == Architecture::Arm64 {
        if spec_matching_assets(assets, p, Architecture::Arm64).len() > 0 {
            spec_matching_assets(assets, p, Architecture::Arm64)
        } else {
            spec_matching_assets(assets, p, Architecture::Amd64)
        }
    } else {
        spec_matching_assets(assets, p, a)
    }
}

/// Filters the assets classified to exactly the given platform and
/// architecture.
pub fn filter_platform_assets(assets: &Vec<Asset>, p: Platform, a: Architecture) -> (r: Vec<Asset>)
    ensures
        spec_asset_views(r@) == spec_matching_assets(spec_asset_views(assets@), p, a),
{
    let ghost s = spec_asset_views(assets@);
    let ghost pred = spec_matches(p, a);
    let mut out: Vec<Asset> = Vec::new();
    let mut i: usize = 0;
    proof {
        reveal(Seq::filter);
        assert(s.take(0) =~= Seq::<AssetView>::empty());
        assert(spec_asset_views(out@) =~= s.take(0).filter(pred));
    }
    while i < assets.len()
        invariant
            i <= assets@.len(),
            s == spec_asset_views(assets@),
            s.len() == assets@.len(),
            pred == spec_matches(p, a),
            spec_asset_views(out@) == s.take(i as int).filter(pred),
        decreases assets@.len() - i,
    {
        let asset = &assets[i];
        let keep = asset.platform() == p && asset.architecture() == a;
        proof {
            reveal(Seq::filter);
            assert(s[i as int] == assets@[i as int]@);
            assert(s.take(i + 1).drop_last() =~= s.take(i as int));
            assert(s.take(i + 1).last() == s[i as int]);
        }
        if keep {
            out.push(asset.clone());
            proof {
                assert(spec_asset_views(out@) =~= s.take(i as int).filter(pred).push(s[i as int]));
            }
        } else {
            proof {
                assert(spec_asset_views(out@) == s.take(i + 1).filter(pred));
            }
        }
        i = i + 1;
    }
    proof {
        assert(s.take(i as int) =~= s);
    }
    out
}

/// Selects the assets for the given platform and architecture, with the
/// Darwin/Arm64 fallback to Amd64 when no Arm64 asset matches.
pub fn select_assets(assets: &Vec<Asset>, p: Platform, a: Architecture) -> (r: Vec<Asset>)
    ensures
        spec_asset_views(r@) == spec_select(spec_asset_views(assets@), p, a),
{
    if p == Platform::Darwin && a == Architecture::Arm64 {
        let arm = filter_platform_assets(assets, p, Architecture::Arm64);
        if arm.len() > 0 {
            arm
        } else {
            filter_platform_assets(assets, p, Architecture::Amd64)
        }
    } else {
        filter_platform_assets(assets, p, a)
    }
}

impl Release {
    /// The version this release's tag resolves to, or the pre-release
    /// `0.0.0-<tag>` fallback when the tag does not resolve.
    pub fn version(&self) -> (r: Version)
        ensures
            match spec_resolve(self.tag_name@) {
                Some(vs) => r@ == vs,
                None => r@.major == 0 && r@.minor == 0 && r@.patch == 0 && r@.pre == self.tag_name@
                    && r@.build.len() == 0,
            },
    {
        match parse_version_fuzzy(self.tag_name.as_str()) {
            Ok(v) => v,
            Err(_) => Version {
                major: 0,
                minor: 0,
                patch: 0,
                pre: self.tag_name.clone(),
                build: String::new(),
            },
        }
    }

    /// The version this release's tag resolves to, or `InvalidVersion` when
    /// it does not.
    pub fn parsed_version(&self) -> (r: BinmanResult<Version>)
        ensures
            match r {
                Ok(v) => spec_resolve(self.tag_name@) == Some(v@),
                Err(e) => spec_resolve(self.tag_name@) is None && e.cause == Cause::InvalidVersion,
            },
    {
        parse_version_fuzzy(self.tag_name.as_str())
    }

    /// The assets of this release that match the detected platform and
    /// architecture, with the Darwin/Arm64 fallback.
    pub fn platform_assets(&self) -> (r: Vec<Asset>)
        ensures
            exists|p: Platform, a: Architecture|
                spec_asset_views(r@) == #[trigger] spec_select(self@.assets, p, a),
    {
        let p = detect_platform();
        let a = detect_architecture();
        let r = select_assets(&self.assets, p, a);
        proof {
            assert(spec_asset_views(r@) == spec_select(self@.assets, p, a));
        }
        r
    }
}

/// Off Darwin/Arm64, every selected asset classifies to exactly the
/// detected platform and architecture: selection never returns an asset of
/// another architecture.
pub proof fn lemma_select_keeps_detected_architecture(
    assets: Seq<AssetView>,
    p: Platform,
    a: Architecture,
    i: int,
)
    requires
        !(p == Platform::Darwin && a == Architecture::Arm64),
        0 <= i < spec_select(assets, p, a).len(),
    ensures
        spec_platform_of(spec_select(assets, p, a)[i].name) == p,
        spec_architecture_of(spec_select(assets, p, a)[i].name) == a,
{
    assets.lemma_filter_pred(spec_matches(p, a), i);
}

/// On Darwin/Arm64, selection falls back to the Amd64 matches exactly when
/// no asset of the release classifies as Darwin/Arm64.
pub proof fn lemma_darwin_arm64_fallback(assets: Seq<AssetView>)
    ensures
        spec_matching_assets(assets, Platform::Darwin, Architecture::Arm64).len() > 0
            ==> spec_select(assets, Platform::Darwin, Architecture::Arm64) == spec_matching_assets(
            assets,
            Platform::Darwin,
            Architecture::Arm64,
        ),
        spec_matching_assets(assets, Platform::Darwin, Architecture::Arm64).len() == 0
            ==> spec_select(assets, Platform::Darwin, Architecture::Arm64) == spec_matching_assets(
            assets,
            Platform::Darwin,
            Architecture::Amd64,
        ),
        spec_matching_assets(assets, Platform::Darwin, Architecture::Arm64).len() == 0 <==> (forall|
            i: int,
        |
            0 <= i < assets.len() ==> !(spec_platform_of(#[trigger] assets[i].name)
                == Platform::Darwin && spec_architecture_of(assets[i].name)
                == Architecture::Arm64)),
{
    let pred = spec_matches(Platform::Darwin, Architecture::Arm64);
    let filtered = spec_matching_assets(assets, Platform::Darwin, Architecture::Arm64);
    if filtered.len() == 0 {
        assert forall|i: int|
            0 <= i < assets.len() implies !(spec_platform_of(#[trigger] assets[i].name)
            == Platform::Darwin && spec_architecture_of(assets[i].name)
            == Architecture::Arm64) by {
            if pred(assets[i]) {
                assets.lemma_filter_contains(pred, i);
            }
        }
    } else {
        if forall|i: int|
            0 <= i < assets.len() ==> !pred(#[trigger] assets[i]) {
            assets.lemma_all_neg_filter_empty(pred);
        }
    }
}

} // verus!
