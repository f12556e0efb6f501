//! Schema versions of a consciousness workspace: what the version manifest holds, and what to
//! do to bring a workspace to the version a binary targets (v1 had an L4 layer, v2 has two
//! cores).

use vstd::prelude::*;
use crate::text::{decimal, decimal_string_u64, join_path, path_join, push_str};

verus! {

/// The version manifest of a workspace (`.version.json`).
#[derive(Debug, Clone)]
pub struct VersionManifest {
    pub schema_version: u32,
    /// "migrating" while a migration is under way.
    pub status: Option<String>,
    pub upgraded_from: Option<u32>,
    pub upgraded_at: Option<String>,
    /// What each directory of the workspace is, by directory name.
    pub layout: Vec<(String, String)>,
}

/// What a workspace holds, as far as choosing a migration goes.
#[derive(Debug, Clone, Copy, PartialEq, Eq, Structural)]
pub struct WorkspaceFacts {
    /// The schema version of the manifest, if there is one.
    pub manifest_version: Option<u32>,
    /// Whether the manifest says a migration is under way.
    pub migrating: bool,
    /// Whether the v1 `L4` directory exists.
    pub has_l4: bool,
    /// Whether the v2 `core-a` directory exists.
    pub has_core_a: bool,
}

/// What bringing a workspace to the target version takes.
#[derive(Debug, Clone, Copy, PartialEq, Eq, Structural)]
pub enum VersionPlan {
    /// The workspace is at the target already, or nothing is to be done.
    Nothing,
    /// Run (or re-run; every step is idempotent) the v1 to v2 migration.
    MigrateV1ToV2,
    /// The layout is v2 but there is no manifest: write one.
    WriteV2Manifest,
    /// A fresh workspace: create the v2 layout.
    CreateV2Layout,
    /// The workspace is newer than the binary: refuse to downgrade.
    RefuseDowngrade { current: u32, target: u32 },
    /// No migration leads from `from` to `to`.
    NoMigrationPath { from: u32, to: u32 },
    /// An interrupted migration cannot be resumed towards `target`.
    CannotResume { target: u32 },
}

/// The plan for bringing a workspace with the given facts to `target`.
pub open spec fn version_plan(f: WorkspaceFacts, target: u32) -> VersionPlan {
    match f.manifest_version {
        Some(current) => if f.migrating {
            if target == 2 {
                VersionPlan::MigrateV1ToV2
            } else {
                VersionPlan::CannotResume { target }
            }
        } else if current > target {
            VersionPlan::RefuseDowngrade { current, target }
        } else if current == target {
            VersionPlan::Nothing
        } else if current == 1 && target == 2 {
            VersionPlan::MigrateV1ToV2
        } else {
            VersionPlan::NoMigrationPath { from: current, to: target }
        },
        None => if f.has_core_a {
            VersionPlan::WriteV2Manifest
        } else if f.has_l4 && target == 2 {
            VersionPlan::MigrateV1ToV2
        } else if target == 2 {
            VersionPlan::CreateV2Layout
        } else {
            VersionPlan::Nothing
        },
    }
}

/// Brings workspaces to the schema version a binary targets.
pub struct VersionController {
    workspace: String,
}

impl VersionController {
    /// The workspace directory.
    pub closed spec fn workspace(&self) -> Seq<char> {
        self.workspace@
    }

    /// A controller for the given workspace.
    pub fn new(workspace: String) -> (c: Self)
        ensures
            c.workspace() == workspace@,
    {
        VersionController { workspace }
    }

    /// The path of the version manifest.
    pub fn version_path(&self) -> (p: String)
        ensures
            p@ == join_path(self.workspace(), ".version.json"@),
    {
        path_join(self.workspace.as_str(), ".version.json")
    }

    /// The path of a directory or file of the workspace.
    pub fn entry_path(&self, name: &str) -> (p: String)
        ensures
            p@ == join_path(self.workspace(), name@),
    {
        path_join(self.workspace.as_str(), name)
    }

    /// What bringing the workspace to `target` takes: an interrupted migration is resumed; a
    /// newer workspace is refused; v1 is migrated to v2; a v2 layout without a manifest gets
    /// one; a fresh workspace gets the v2 layout.
    pub fn ensure_version(&self, facts: WorkspaceFacts, target: u32) -> (plan: VersionPlan)
        ensures
            plan == version_plan(facts, target),
    {
        match facts.manifest_version {
            Some(current) => {
                if facts.migrating {
                    if target == 2 {
                        VersionPlan::MigrateV1ToV2
                    } else {
                        VersionPlan::CannotResume { target }
                    }
                } else if current > target {
                    VersionPlan::RefuseDowngrade { current, target }
                } else if current == target {
                    VersionPlan::Nothing
                } else if current == 1 && target == 2 {
                    VersionPlan::MigrateV1ToV2
                } else {
                    VersionPlan::NoMigrationPath { from: current, to: target }
                }
            },
            None => {
                if facts.has_core_a {
                    VersionPlan::WriteV2Manifest
                } else if facts.has_l4 && target == 2 {
                    VersionPlan::MigrateV1ToV2
                } else if target == 2 {
                    VersionPlan::CreateV2Layout
                } else {
                    VersionPlan::Nothing
                }
            },
        }
    }

    /// The schema version of the workspace: that of its manifest, 0 without one.
    pub fn current_version(&self, manifest: &Option<VersionManifest>) -> (v: u32)
        ensures
            v == match manifest {
                Some(m) => m.schema_version,
                None => 0,
            },
    {
        match manifest {
            Some(m) => m.schema_version,
            None => 0,
        }
    }
}

/// A workspace at the target version needs nothing; a newer one is always refused.
pub proof fn lemma_version_plan_never_downgrades(f: WorkspaceFacts, target: u32)
    requires
        f.manifest_version is Some,
        !f.migrating,
    ensures
        f.manifest_version->0 == target ==> version_plan(f, target) == VersionPlan::Nothing,
        f.manifest_version->0 > target ==> version_plan(f, target) is RefuseDowngrade,
        version_plan(f, target) is MigrateV1ToV2 ==> f.manifest_version->0 == 1 && target == 2,
{
}

/// Without a manifest, an existing layout is never recreated from scratch: a `core-a`
/// directory only gets its manifest written; otherwise a v1 `L4` directory is migrated when v2
/// is the target; a fresh v2 layout is created only where neither directory exists.
pub proof fn lemma_unversioned_layout_is_kept(f: WorkspaceFacts, target: u32)
    requires
        f.manifest_version is None,
    ensures
        f.has_core_a ==> version_plan(f, target) == VersionPlan::WriteV2Manifest,
        !f.has_core_a && f.has_l4 && target == 2 ==> version_plan(f, target)
            == VersionPlan::MigrateV1ToV2,
        version_plan(f, target) == VersionPlan::CreateV2Layout ==> !f.has_l4 && !f.has_core_a
            && target == 2,
        version_plan(f, target) is MigrateV1ToV2 ==> f.has_l4 && !f.has_core_a && target == 2,
        !f.has_core_a && target != 2 ==> version_plan(f, target) == VersionPlan::Nothing,
{
}

/// With a manifest: an interrupted migration is resumed when v2 is the target and cannot be
/// resumed otherwise; a finished v1 workspace is migrated to v2; any other older version has
/// no migration path to the target.
pub proof fn lemma_versioned_workspace_plans(f: WorkspaceFacts, target: u32)
    requires
        f.manifest_version is Some,
    ensures
        f.migrating && target == 2 ==> version_plan(f, target) == VersionPlan::MigrateV1ToV2,
        f.migrating && target != 2 ==> version_plan(f, target) == (VersionPlan::CannotResume {
            target,
        }),
        !f.migrating && f.manifest_version->0 == 1 && target == 2 ==> version_plan(f, target)
            == VersionPlan::MigrateV1ToV2,
        !f.migrating && f.manifest_version->0 < target && !(f.manifest_version->0 == 1 && target
            == 2) ==> version_plan(f, target) == (VersionPlan::NoMigrationPath {
            from: f.manifest_version->0,
            to: target,
        }),
        !f.migrating && f.manifest_version->0 > target ==> version_plan(f, target) == (
        VersionPlan::RefuseDowngrade { current: f.manifest_version->0, target }),
{
}

/// The manifest marking a migration under way.
pub fn migrating_manifest() -> (m: VersionManifest)
    ensures
        m.schema_version == 1,
        m.status matches Some(s) && s@ == "migrating"@,
        m.upgraded_from is None,
        m.upgraded_at is None,
        m.layout@.len() == 0,
{
    VersionManifest {
        schema_version: 1,
        status: Some("migrating".to_owned()),
        upgraded_from: None,
        upgraded_at: None,
        layout: Vec::new(),
    }
}

/// The v2 manifest, upgraded from `upgraded_from` at time `now`: the four layers and the two
/// cores.
pub fn v2_manifest(upgraded_from: Option<u32>, now: String) -> (m: VersionManifest)
    ensures
        m.schema_version == 2,
        m.status is None,
        m.upgraded_from == upgraded_from,
        m.upgraded_at matches Some(t) && t@ == now@,
        m.layout@.len() == 6,
        m.layout@[0].0@ == "L0"@ && m.layout@[0].1@ == "gateway"@,
        m.layout@[1].0@ == "L1"@ && m.layout@[1].1@ == "attention"@,
        m.layout@[2].0@ == "L2"@ && m.layout@[2].1@ == "pattern"@,
        m.layout@[3].0@ == "L3"@ && m.layout@[3].1@ == "integration"@,
        m.layout@[4].0@ == "core-a"@ && m.layout@[4].1@ == "core"@,
        m.layout@[5].0@ == "core-b"@ && m.layout@[5].1@ == "core"@,
{
    let mut layout: Vec<(String, String)> = Vec::new();
    layout.push(("L0".to_owned(), "gateway".to_owned()));
    layout.push(("L1".to_owned(), "attention".to_owned()));
    layout.push(("L2".to_owned(), "pattern".to_owned()));
    layout.push(("L3".to_owned(), "integration".to_owned()));
    layout.push(("core-a".to_owned(), "core".to_owned()));
    layout.push(("core-b".to_owned(), "core".to_owned()));
    VersionManifest {
        schema_version: 2,
        status: None,
        upgraded_from,
        upgraded_at: Some(now),
        layout,
    }
}

/// The v1 manifest written by a rollback from v2 at time `now`.
pub fn rollback_manifest(now: String) -> (m: VersionManifest)
    ensures
        m.schema_version == 1,
        m.status is None,
        m.upgraded_from == Some(2u32),
        m.upgraded_at matches Some(t) && t@ == now@,
        m.layout@.len() == 0,
{
    VersionManifest {
        schema_version: 1,
        status: None,
        upgraded_from: Some(2),
        upgraded_at: Some(now),
        layout: Vec::new(),
    }
}

/// What the migration does with the `L4` and `core-a` directories.
#[derive(Debug, Clone, Copy, PartialEq, Eq, Structural)]
pub enum CoreADirStep {
    /// Rename `L4` to `core-a`.
    RenameL4,
    /// Create an empty `core-a`.
    Create,
    /// `core-a` exists already.
    Keep,
}

/// The migration's step for `core-a`: rename `L4` when it exists and `core-a` does not, create
/// `core-a` when neither exists.
pub fn core_a_step(l4_exists: bool, core_a_exists: bool) -> (s: CoreADirStep)
    ensures
        s == if l4_exists && !core_a_exists {
            CoreADirStep::RenameL4
        } else if !core_a_exists {
            CoreADirStep::Create
        } else {
            CoreADirStep::Keep
        },
{
    if l4_exists && !core_a_exists {
        CoreADirStep::RenameL4
    } else if !core_a_exists {
        CoreADirStep::Create
    } else {
        CoreADirStep::Keep
    }
}


/// The error a plan stands for: refusing a downgrade, or finding no migration path.
pub open spec fn plan_error(p: VersionPlan) -> Option<Seq<char>> {
    match p {
        VersionPlan::RefuseDowngrade { current, target } => Some(
            "Workspace is at schema version "@ + decimal(current as nat)
                + " but binary targets version "@ + decimal(target as nat)
                + ". Refusing to downgrade. Use a newer binary or explicit rollback."@,
        ),
        VersionPlan::NoMigrationPath { from, to } => Some(
            "No migration path from version "@ + decimal(from as nat) + " to "@ + decimal(
                to as nat,
            ),
        ),
        _ => None,
    }
}

impl VersionPlan {
    /// The error message of a plan that refuses, none for the others.
    pub fn error_text(&self) -> (r: Option<String>)
        ensures
            match r {
                Some(m) => plan_error(*self) == Some(m@),
                None => plan_error(*self) is None,
            },
    {
        match self {
            VersionPlan::RefuseDowngrade { current, target } => {
                let mut m = String::new();
                push_str(&mut m, "Workspace is at schema version ");
                push_str(&mut m, decimal_string_u64(*current as u64).as_str());
                push_str(&mut m, " but binary targets version ");
                push_str(&mut m, decimal_string_u64(*target as u64).as_str());
                push_str(&mut m, ". Refusing to downgrade. Use a newer binary or explicit rollback.");
                Some(m)
            },
            VersionPlan::NoMigrationPath { from, to } => {
                let mut m = String::new();
                push_str(&mut m, "No migration path from version ");
                push_str(&mut m, decimal_string_u64(*from as u64).as_str());
                push_str(&mut m, " to ");
                push_str(&mut m, decimal_string_u64(*to as u64).as_str());
                Some(m)
            },
            _ => None,
        }
    }
}

} // verus!
