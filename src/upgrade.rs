//! Which transformation each upgrade step applies, and the ordered plan of
//! steps up to a target version.
use vstd::prelude::*;
use vstd::string::StringSliceAdditionalSpecFns;
use crate::version::{
    find_version_str, first_with_text, fv, known_versions, last_version_spec, version_text, versions_iter,
    FrameworkVersion,
};

verus! {

/// The rewrite applied to a contract crate for one upgrade step.
#[derive(Clone, Copy, Debug, PartialEq, Eq, Structural)]
pub enum UpgradeAction {
    UpgradeTo31,
    UpgradeTo32,
    UpgradeTo39,
    UpgradeTo45,
    /// Only the framework version in Cargo.toml changes.
    VersionBump,
}

/// What follows the rewrite of one upgrade step.
#[derive(Clone, Copy, Debug, PartialEq, Eq, Structural)]
pub enum PostProcessing {
    CargoCheck,
    /// The milestone clean-up, then a check.
    MilestoneThenCheck,
    Nothing,
}

pub open spec fn action_for(to: FrameworkVersion) -> UpgradeAction {
    if to == fv(0, 31, 0) {
        UpgradeAction::UpgradeTo31
    } else if to == fv(0, 32, 0) {
        UpgradeAction::UpgradeTo32
    } else if to == fv(0, 39, 0) {
        UpgradeAction::UpgradeTo39
    } else if to == fv(0, 45, 0) {
        UpgradeAction::UpgradeTo45
    } else {
        UpgradeAction::VersionBump
    }
}

/// Targets after which the crate is checked.
pub open spec fn checked_targets() -> Seq<FrameworkVersion> {
    seq![
        fv(0, 28, 0), fv(0, 29, 0), fv(0, 30, 0), fv(0, 31, 0), fv(0, 32, 0), fv(0, 33, 0),
        fv(0, 34, 0), fv(0, 35, 0), fv(0, 36, 0), fv(0, 37, 0), fv(0, 40, 0), fv(0, 41, 0),
        fv(0, 42, 0), fv(0, 43, 0), fv(0, 44, 0), fv(0, 45, 2),
    ]
}

/// The milestone release that needs extra clean-up.
pub open spec fn milestone_version() -> FrameworkVersion {
    fv(0, 39, 0)
}

pub open spec fn post_processing_for(to: FrameworkVersion) -> PostProcessing {
    if checked_targets().contains(to) {
        PostProcessing::CargoCheck
    } else if to == milestone_version() {
        PostProcessing::MilestoneThenCheck
    } else {
        PostProcessing::Nothing
    }
}

/// The rewrite for an upgrade step that ends at `to`.
pub fn upgrade_function_selector(to: FrameworkVersion) -> (r: UpgradeAction)
    ensures
        r == action_for(to),
{
    if to == FrameworkVersion::new(0, 31, 0) {
        UpgradeAction::UpgradeTo31
    } else if to == FrameworkVersion::new(0, 32, 0) {
        UpgradeAction::UpgradeTo32
    } else if to == FrameworkVersion::new(0, 39, 0) {
        UpgradeAction::UpgradeTo39
    } else if to == FrameworkVersion::new(0, 45, 0) {
        UpgradeAction::UpgradeTo45
    } else {
        UpgradeAction::VersionBump
    }
}

/// What follows the rewrite for an upgrade step that ends at `to`.
pub fn upgrade_post_processing(to: FrameworkVersion) -> (r: PostProcessing)
    ensures
        r == post_processing_for(to),
{
    let checked: Vec<FrameworkVersion> = vec![
        FrameworkVersion::new(0, 28, 0), FrameworkVersion::new(0, 29, 0),
        FrameworkVersion::new(0, 30, 0), FrameworkVersion::new(0, 31, 0),
        FrameworkVersion::new(0, 32, 0), FrameworkVersion::new(0, 33, 0),
        FrameworkVersion::new(0, 34, 0), FrameworkVersion::new(0, 35, 0),
        FrameworkVersion::new(0, 36, 0), FrameworkVersion::new(0, 37, 0),
        FrameworkVersion::new(0, 40, 0), FrameworkVersion::new(0, 41, 0),
        FrameworkVersion::new(0, 42, 0), FrameworkVersion::new(0, 43, 0),
        FrameworkVersion::new(0, 44, 0), FrameworkVersion::new(0, 45, 2),
    ];
    assert(checked@ =~= checked_targets());
    let mut i: usize = 0;
    while i < checked.len()
        invariant
            checked@ == checked_targets(),
            i <= checked@.len(),
            forall|j: int| 0 <= j < i ==> checked@[j] != to,
        decreases checked@.len() - i,
    {
        if checked[i] == to {
            assert(checked_targets().contains(to));
            return PostProcessing::CargoCheck;
        }
        i = i + 1;
    }
    assert(!checked_targets().contains(to));
    if to == FrameworkVersion::new(0, 39, 0) {
        PostProcessing::MilestoneThenCheck
    } else {
        PostProcessing::Nothing
    }
}

/// The version an upgrade goes up to: the known version whose text is
/// `requested`, or the last version when none is requested or none matches.
pub fn upgrade_target(requested: Option<&str>) -> (r: FrameworkVersion)
    ensures
        match requested {
            Some(t) => (exists|i: int| first_with_text(known_versions(), t.spec_bytes(), i) && known_versions()[i] == r)
                || ((forall|j: int| 0 <= j < known_versions().len() ==> version_text(#[trigger] known_versions()[j]) != t.spec_bytes())
                && r == last_version_spec()),
            None => r == last_version_spec(),
        },
        known_versions().contains(r),
{
    let r = match requested {
        Some(t) => match find_version_str(t) {
            Some(v) => v,
            None => FrameworkVersion::new(0, 45, 2),
        },
        None => FrameworkVersion::new(0, 45, 2),
    };
    proof {
        assert(known_versions()[41] == last_version_spec());
    }
    r
}

/// One step of an upgrade plan.
#[derive(Clone, Copy, Debug, PartialEq, Eq, Structural)]
pub struct UpgradeStep {
    pub from: FrameworkVersion,
    pub to: FrameworkVersion,
    pub action: UpgradeAction,
    pub post: PostProcessing,
}

/// The upgrade steps from the oldest known version up to `last_version`, in
/// order: each adjacent pair of known versions whose older side is not yet
/// `last_version`, with its rewrite and follow-up.
pub fn upgrade_plan(last_version: FrameworkVersion) -> (r: Vec<UpgradeStep>)
    ensures
        r@.len() < known_versions().len(),
        forall|i: int|
            0 <= i < r@.len() ==> #[trigger] r@[i] == (UpgradeStep {
                from: known_versions()[i],
                to: known_versions()[i + 1],
                action: action_for(known_versions()[i + 1]),
                post: post_processing_for(known_versions()[i + 1]),
            }) && known_versions()[i] != last_version,
        r@.len() == known_versions().len() - 1 || known_versions()[r@.len() as int]
            == last_version,
{
    let mut it = versions_iter(last_version);
    let mut r: Vec<UpgradeStep> = Vec::new();
    loop
        invariant
            it.list() == known_versions(),
            it.last() == last_version,
            it.position() == r@.len() + 1,
            r@.len() < known_versions().len(),
            forall|i: int|
                0 <= i < r@.len() ==> #[trigger] r@[i] == (UpgradeStep {
                    from: known_versions()[i],
                    to: known_versions()[i + 1],
                    action: action_for(known_versions()[i + 1]),
                    post: post_processing_for(known_versions()[i + 1]),
                }) && known_versions()[i] != last_version,
        decreases known_versions().len() - r@.len(),
    {
        match it.next() {
            Some(pair) => {
                let (from, to) = pair;
                r.push(UpgradeStep {
                    from,
                    to,
                    action: upgrade_function_selector(to),
                    post: upgrade_post_processing(to),
                });
            },
            None => {
                return r;
            },
        }
    }
}

} // verus!
