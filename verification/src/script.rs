//! The steps of a run and the order in which a manifest asks for them.
//!
//! A run deploys every asset, launches the runtime installer, sets the
//! desktop wallpaper, sets the lock screen image, and removes what it
//! deployed. The script of a manifest is that sequence, step by step.

use vstd::prelude::*;
use crate::asset::{Asset, AssetView, Manifest, Table, entries};

verus! {

/// One side effect that the driver performs. Assets are named by their
/// position in the manifest; a folder is named by the first asset in it.
#[derive(Clone, Copy, Debug, PartialEq, Eq, Structural)]
pub enum Step {
    /// Create the folder of the asset at `of`, unless it is there already.
    CreateFolder { of: usize },
    /// Write the payload of the asset at `asset` to its destination,
    /// replacing whatever file is there.
    WriteAsset { asset: usize },
    /// Launch the deployed runtime installer and wait for it.
    InstallRuntime { installer: usize },
    /// Make the deployed image at `image` the desktop wallpaper.
    SetDesktop { image: usize },
    /// Launch the deployed helper to make the deployed image at `image` the
    /// lock screen image.
    SetLockScreen { helper: usize, image: usize },
    /// Remove the folder of the asset at `of` with everything in it.
    RemoveFolder { of: usize },
    /// Remove the file of the asset at `asset`.
    RemoveFile { asset: usize },
}

impl Step {
    /// The step belongs to deployment.
    pub open spec fn deploys(self) -> bool {
        self is CreateFolder || self is WriteAsset
    }

    /// The step belongs to cleanup.
    pub open spec fn cleans(self) -> bool {
        self is RemoveFolder || self is RemoveFile
    }

    /// Whether the step belongs to deployment.
    pub fn is_deployment(&self) -> (r: bool)
        ensures
            r == self.deploys(),
    {
        match self {
            Step::CreateFolder { .. } => true,
            Step::WriteAsset { .. } => true,
            _ => false,
        }
    }

    /// Whether the step belongs to cleanup.
    pub fn is_cleanup(&self) -> (r: bool)
        ensures
            r == self.cleans(),
    {
        match self {
            Step::RemoveFolder { .. } => true,
            Step::RemoveFile { .. } => true,
            _ => false,
        }
    }
}

/// The asset at `i` lies in a folder that no earlier asset lies in.
pub open spec fn leads_folder(assets: Seq<AssetView>, i: int) -> bool {
    &&& assets[i].place.folder is Some
    &&& forall|j: int| 0 <= j < i ==> (#[trigger] assets[j]).place.folder != assets[i].place.folder
}

/// One `CreateFolder` for each folder whose first asset stands below `upto`,
/// in the order of those assets.
pub open spec fn creations(assets: Seq<AssetView>, upto: nat) -> Seq<Step>
    decreases upto,
{
    if upto == 0 {
        Seq::empty()
    } else if leads_folder(assets, upto - 1) {
        creations(assets, (upto - 1) as nat).push(Step::CreateFolder { of: (upto - 1) as usize })
    } else {
        creations(assets, (upto - 1) as nat)
    }
}

/// One `WriteAsset` for each position below `upto`, in order.
pub open spec fn writes(upto: nat) -> Seq<Step> {
    Seq::new(upto, |i: int| Step::WriteAsset { asset: i as usize })
}

/// One `RemoveFolder` for each folder whose first asset stands below `upto`,
/// in the order of those assets.
pub open spec fn folder_removals(assets: Seq<AssetView>, upto: nat) -> Seq<Step>
    decreases upto,
{
    if upto == 0 {
        Seq::empty()
    } else if leads_folder(assets, upto - 1) {
        folder_removals(assets, (upto - 1) as nat).push(
            Step::RemoveFolder { of: (upto - 1) as usize },
        )
    } else {
        folder_removals(assets, (upto - 1) as nat)
    }
}

/// One `RemoveFile` for each asset below `upto` that lies in the root, in
/// order.
pub open spec fn file_removals(assets: Seq<AssetView>, upto: nat) -> Seq<Step>
    decreases upto,
{
    if upto == 0 {
        Seq::empty()
    } else if assets[upto - 1].place.folder is None {
        file_removals(assets, (upto - 1) as nat).push(
            Step::RemoveFile { asset: (upto - 1) as usize },
        )
    } else {
        file_removals(assets, (upto - 1) as nat)
    }
}

impl Table {
    /// Deployment: every folder is created, then every asset is written.
    pub open spec fn deployment(self) -> Seq<Step> {
        creations(self.assets, self.assets.len()) + writes(self.assets.len())
    }

    /// The three steps between deployment and cleanup. None of them can stop
    /// the run.
    pub open spec fn errands(self) -> Seq<Step> {
        seq![
            Step::InstallRuntime { installer: self.roles.installer },
            Step::SetDesktop { image: self.roles.wallpaper },
            Step::SetLockScreen { helper: self.roles.helper, image: self.roles.lock_image },
        ]
    }

    /// Cleanup: every folder is removed with its contents, then every file
    /// in the root.
    pub open spec fn cleanup(self) -> Seq<Step> {
        folder_removals(self.assets, self.assets.len()) + file_removals(
            self.assets,
            self.assets.len(),
        )
    }

    /// The whole run: deployment, errands, cleanup.
    pub open spec fn script(self) -> Seq<Step> {
        self.deployment() + self.errands() + self.cleanup()
    }
}

/// Whether the asset at `i` lies in a folder that no earlier asset lies in.
pub fn is_folder_leader(assets: &Vec<Asset>, i: usize) -> (r: bool)
    requires
        i < assets.len(),
    ensures
        r == leads_folder(entries(assets@), i as int),
{
    let ghost es = entries(assets@);
    match &assets[i].folder {
        None => false,
        Some(folder) => {
            let mut j: usize = 0;
            while j < i
                invariant
                    j <= i < assets.len(),
                    es == entries(assets@),
                    es[i as int].place.folder == Some(folder@),
                    forall|k: int| 0 <= k < j ==> (#[trigger] es[k]).place.folder != Some(folder@),
                decreases i - j,
            {
                if assets[j].lies_in(folder) {
                    assert(es[j as int].place.folder == es[i as int].place.folder);
                    return false;
                }
                j += 1;
            }
            true
        },
    }
}

impl Manifest {
    /// The steps of a run of this manifest, in order.
    pub fn script(&self) -> (steps: Vec<Step>)
        requires
            self.wf(),
        ensures
            steps@ == self@.script(),
    {
        let assets = self.assets();
        let roles = self.roles();
        let n: usize = assets.len();
        let ghost es = self@.assets;
        let mut steps: Vec<Step> = Vec::new();
        let mut i: usize = 0;
        while i < n
            invariant
                i <= n == assets.len(),
                es == entries(assets@),
                steps@ == creations(es, i as nat),
            decreases n - i,
        {
            if is_folder_leader(assets, i) {
                steps.push(Step::CreateFolder { of: i });
            }
            i += 1;
        }
        i = 0;
        while i < n
            invariant
                i <= n == assets.len(),
                steps@ == creations(es, n as nat) + writes(i as nat),
            decreases n - i,
        {
            steps.push(Step::WriteAsset { asset: i });
            assert(steps@ =~= creations(es, n as nat) + writes((i + 1) as nat));
            i += 1;
        }
        steps.push(Step::InstallRuntime { installer: roles.installer });
        steps.push(Step::SetDesktop { image: roles.wallpaper });
        steps.push(Step::SetLockScreen { helper: roles.helper, image: roles.lock_image });
        let ghost head = self@.deployment() + self@.errands();
        assert(steps@ =~= head);
        i = 0;
        while i < n
            invariant
                i <= n == assets.len(),
                es == entries(assets@),
                steps@ == head + folder_removals(es, i as nat),
            decreases n - i,
        {
            if is_folder_leader(assets, i) {
                steps.push(Step::RemoveFolder { of: i });
                assert(steps@ =~= head + folder_removals(es, (i + 1) as nat));
            }
            i += 1;
        }
        i = 0;
        while i < n
            invariant
                i <= n == assets.len(),
                es == entries(assets@),
                steps@ == head + folder_removals(es, n as nat) + file_removals(es, i as nat),
            decreases n - i,
        {
            if assets[i].folder.is_none() {
                steps.push(Step::RemoveFile { asset: i });
                assert(steps@ =~= head + folder_removals(es, n as nat) + file_removals(
                    es,
                    (i + 1) as nat,
                ));
            }
            i += 1;
        }
        assert(steps@ =~= self@.script());
        steps
    }
}

} // verus!
