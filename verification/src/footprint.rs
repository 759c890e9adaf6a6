//! What a run leaves on disk: every payload after deployment, nothing of
//! the manifest after cleanup, and the same disk again after a second run.

use vstd::prelude::*;
use crate::asset::{Table, clash};
use crate::course::{
    deployed_well,
    law_run_goes_through,
    law_verdict,
    lemma_creations_shape,
    lemma_file_removals_shape,
    lemma_folder_removals_shape,
    lemma_script_shape,
    play,
    statuses,
};
use crate::disk::{Disk, lemma_after_concat, lemma_after_push, lemma_write};
use crate::outcome::Outcome;
use crate::run::{Directive, Verdict, directive_of};
use crate::script::{Step, creations, file_removals, folder_removals, leads_folder, writes};

verus! {

impl Table {
    /// Some asset of this table takes up `name` in the root.
    pub open spec fn anchors(self, name: Seq<char>) -> bool {
        exists|i: int| 0 <= i < self.assets.len() && (#[trigger] self.assets[i]).anchor() == name
    }

    /// Nothing on `disk` stands in the way of deployment: no file has the
    /// name of a folder of the table, and no folder has the name of a file
    /// that the table puts into the root.
    pub open spec fn receptive(self, disk: Disk) -> bool {
        forall|i: int|
            0 <= i < self.assets.len() ==> match (#[trigger] self.assets[i]).place.folder {
                Some(folder) => !disk.has_file(folder),
                None => !disk.has_folder(self.assets[i].place.file),
            }
    }

    /// The folder of every asset below `upto` is on `disk`.
    pub open spec fn housed(self, disk: Disk, upto: int) -> bool {
        forall|i: int|
            0 <= i < upto ==> ((#[trigger] self.assets[i]).place.folder matches Some(folder)
                ==> disk.has_folder(folder))
    }

    /// Every asset from `from` on that lies in the root has its file on
    /// `disk`.
    pub open spec fn filed(self, disk: Disk, from: int) -> bool {
        forall|i: int|
            from <= i < self.assets.len() ==> ((#[trigger] self.assets[i]).place.folder is None
                ==> disk.has_file(self.assets[i].place.file))
    }

    /// Every folder of the table that holds no asset below `upto` is on
    /// `disk`.
    pub open spec fn still_housed(self, disk: Disk, upto: int) -> bool {
        forall|i: int|
            0 <= i < self.assets.len() ==> ((#[trigger] self.assets[i]).place.folder matches Some(
                folder,
            ) ==> (forall|j: int|
                0 <= j < upto ==> (#[trigger] self.assets[j]).place.folder != Some(folder))
                ==> disk.has_folder(folder))
    }

    /// `later` holds nothing in its root that `earlier` does not hold, and
    /// lacks nothing of `earlier` but what an asset of this table takes up.
    pub open spec fn pruned(self, earlier: Disk, later: Disk) -> bool {
        &&& forall|name: Seq<char>| #[trigger]
            later.root.contains_key(name) ==> earlier.root.contains_key(name) && later.root[name]
                == earlier.root[name]
        &&& forall|name: Seq<char>|
            earlier.root.contains_key(name) && !#[trigger] later.root.contains_key(name)
                ==> self.anchors(name)
    }

    /// Outside the names that the assets of this table take up, the roots
    /// of `one` and `other` are the same.
    pub open spec fn same_elsewhere(self, one: Disk, other: Disk) -> bool {
        forall|name: Seq<char>|
            !self.anchors(name) ==> (#[trigger] one.root.contains_key(name)
                == other.root.contains_key(name)) && (one.root.contains_key(name) ==> one.root[name]
                == other.root[name])
    }
}

/// Writing the first `upto` assets, where every write goes through, puts
/// each of their payloads at its place.
pub proof fn lemma_writes_land(table: Table, disk: Disk, upto: nat)
    requires
        table.places_distinct(),
        upto <= table.assets.len() <= usize::MAX,
        table.feasible(disk, writes(upto)),
    ensures
        forall|i: int|
            0 <= i < upto ==> table.after(disk, writes(upto)).content(
                (#[trigger] table.assets[i]).place,
            ) == Some(table.assets[i].payload),
    decreases upto,
{
    if upto > 0 {
        let before = writes((upto - 1) as nat);
        let last = Step::WriteAsset { asset: (upto - 1) as usize };
        assert(writes(upto) =~= before.push(last));
        lemma_after_push(table, disk, before, last);
        lemma_writes_land(table, disk, (upto - 1) as nat);
        let mid = table.after(disk, before);
        let asset = table.assets[upto - 1];
        assert forall|i: int| 0 <= i < upto implies table.after(disk, writes(upto)).content(
            (#[trigger] table.assets[i]).place,
        ) == Some(table.assets[i].payload) by {
            lemma_write(mid, asset.place, asset.payload, table.assets[i].place);
        }
    }
}

/// After a deployment in which every step went through, every asset is at
/// its destination, byte for byte.
pub proof fn law_deployment_lands_every_payload(table: Table, disk: Disk)
    requires
        table.valid(),
        table.feasible(disk, table.deployment()),
    ensures
        table.deployed(table.after(disk, table.deployment())),
{
    let n = table.assets.len();
    let made = creations(table.assets, n);
    lemma_after_concat(table, disk, made, writes(n));
    lemma_writes_land(table, table.after(disk, made), n);
}

/// On a receptive disk every folder creation goes through, and the disk
/// stays receptive.
pub proof fn lemma_creations_feasible(table: Table, disk: Disk, upto: nat)
    requires
        table.valid(),
        table.receptive(disk),
        upto <= table.assets.len(),
    ensures
        table.feasible(disk, creations(table.assets, upto)),
        table.receptive(table.after(disk, creations(table.assets, upto))),
        table.housed(table.after(disk, creations(table.assets, upto)), upto as int),
    decreases upto,
{
    if upto > 0 {
        let i = upto - 1;
        let before = creations(table.assets, i as nat);
        lemma_creations_feasible(table, disk, i as nat);
        let mid = table.after(disk, before);
        if leads_folder(table.assets, i) {
            let step = Step::CreateFolder { of: i as usize };
            lemma_after_push(table, disk, before, step);
            let name = table.assets[i].anchor();
            let next = mid.with_folder(name);
            assert(table.receptive(next)) by {
                assert forall|k: int| 0 <= k < table.assets.len() implies match (
                #[trigger] table.assets[k]).place.folder {
                    Some(folder) => !next.has_file(folder),
                    None => !next.has_folder(table.assets[k].place.file),
                } by {
                    assert(!clash(table.assets, k, i));
                }
            }
            assert(table.housed(next, upto as int));
        } else {
            assert(table.housed(mid, upto as int));
        }
    }
}

/// On a receptive disk that holds every folder of the table, every write
/// goes through.
pub proof fn lemma_writes_feasible(table: Table, disk: Disk, upto: nat)
    requires
        table.valid(),
        table.receptive(disk),
        table.housed(disk, table.assets.len() as int),
        upto <= table.assets.len(),
    ensures
        table.feasible(disk, writes(upto)),
        table.receptive(table.after(disk, writes(upto))),
        table.housed(table.after(disk, writes(upto)), table.assets.len() as int),
    decreases upto,
{
    if upto > 0 {
        let i = upto - 1;
        let before = writes(i as nat);
        let step = Step::WriteAsset { asset: i as usize };
        assert(writes(upto) =~= before.push(step));
        lemma_after_push(table, disk, before, step);
        lemma_writes_feasible(table, disk, i as nat);
        let mid = table.after(disk, before);
        let asset = table.assets[i];
        let next = mid.with_file(asset.place, asset.payload);
        assert(table.possible(mid, step));
        assert forall|k: int| 0 <= k < table.assets.len() implies match (
        #[trigger] table.assets[k]).place.folder {
            Some(folder) => !next.has_file(folder) && next.has_folder(folder),
            None => !next.has_folder(table.assets[k].place.file),
        } by {
            assert(!clash(table.assets, k, i));
            assert(!clash(table.assets, i, k));
        }
    }
}

/// On a receptive disk the whole deployment goes through.
pub proof fn lemma_deployment_feasible(table: Table, disk: Disk)
    requires
        table.valid(),
        table.receptive(disk),
    ensures
        table.feasible(disk, table.deployment()),
{
    let n = table.assets.len();
    let made = creations(table.assets, n);
    lemma_creations_feasible(table, disk, n);
    lemma_writes_feasible(table, table.after(disk, made), n);
    lemma_after_concat(table, disk, made, writes(n));
}

/// On a disk that holds every folder and every root file of the table,
/// every folder removal goes through, and the root files stay.
pub proof fn lemma_folder_removals_feasible(table: Table, disk: Disk, upto: nat)
    requires
        table.valid(),
        table.still_housed(disk, 0),
        table.filed(disk, 0),
        upto <= table.assets.len(),
    ensures
        table.feasible(disk, folder_removals(table.assets, upto)),
        table.still_housed(table.after(disk, folder_removals(table.assets, upto)), upto as int),
        table.filed(table.after(disk, folder_removals(table.assets, upto)), 0),
    decreases upto,
{
    if upto > 0 {
        let i = upto - 1;
        let before = folder_removals(table.assets, i as nat);
        lemma_folder_removals_feasible(table, disk, i as nat);
        let mid = table.after(disk, before);
        if leads_folder(table.assets, i) {
            let step = Step::RemoveFolder { of: i as usize };
            lemma_after_push(table, disk, before, step);
            let name = table.assets[i].anchor();
            let next = mid.without(name);
            assert(mid.has_folder(name));
            assert(table.filed(next, 0)) by {
                assert forall|k: int|
                    0 <= k < table.assets.len() && (#[trigger] table.assets[k]).place.folder
                        is None implies next.has_file(table.assets[k].place.file) by {
                    assert(!clash(table.assets, k, i));
                }
            }
            assert(table.still_housed(next, upto as int)) by {
                assert forall|k: int| 0 <= k < table.assets.len() implies ((
                #[trigger] table.assets[k]).place.folder matches Some(folder) ==> (forall|j: int|
                    0 <= j < upto ==> (#[trigger] table.assets[j]).place.folder != Some(folder))
                    ==> next.has_folder(folder)) by {
                    if table.assets[k].place.folder is Some && (forall|j: int|
                        0 <= j < upto ==> (#[trigger] table.assets[j]).place.folder
                            != table.assets[k].place.folder) {
                        assert(table.assets[i].place.folder != table.assets[k].place.folder);
                    }
                }
            }
        } else {
            assert(table.still_housed(mid, upto as int));
        }
    }
}

/// On a disk that holds every root file of the table, every file removal
/// goes through.
pub proof fn lemma_file_removals_feasible(table: Table, disk: Disk, upto: nat)
    requires
        table.valid(),
        table.filed(disk, 0),
        upto <= table.assets.len(),
    ensures
        table.feasible(disk, file_removals(table.assets, upto)),
        table.filed(table.after(disk, file_removals(table.assets, upto)), upto as int),
    decreases upto,
{
    if upto > 0 {
        let i = upto - 1;
        let before = file_removals(table.assets, i as nat);
        lemma_file_removals_feasible(table, disk, i as nat);
        let mid = table.after(disk, before);
        if table.assets[i].place.folder is None {
            let step = Step::RemoveFile { asset: i as usize };
            lemma_after_push(table, disk, before, step);
            let next = mid.without(table.assets[i].place.file);
            assert(table.after(disk, file_removals(table.assets, upto)) == next);
            assert forall|k: int|
                upto <= k < table.assets.len() && (#[trigger] table.assets[k]).place.folder
                    is None implies next.has_file(table.assets[k].place.file) by {
                assert(table.assets[i].place != table.assets[k].place);
            }
        }
    }
}

/// On a disk that holds every asset of the table, the whole cleanup goes
/// through.
pub proof fn lemma_cleanup_feasible(table: Table, disk: Disk)
    requires
        table.valid(),
        table.deployed(disk),
    ensures
        table.feasible(disk, table.cleanup()),
{
    let n = table.assets.len();
    let folders = folder_removals(table.assets, n);
    assert(table.still_housed(disk, 0)) by {
        assert forall|k: int| 0 <= k < n implies ((#[trigger] table.assets[k]).place.folder
            matches Some(folder) ==> disk.has_folder(folder)) by {
            assert(disk.content(table.assets[k].place) is Some);
        }
    }
    assert(table.filed(disk, 0)) by {
        assert forall|k: int|
            0 <= k < n && (#[trigger] table.assets[k]).place.folder is None implies disk.has_file(
                table.assets[k].place.file,
            ) by {
            assert(disk.content(table.assets[k].place) is Some);
        }
    }
    lemma_folder_removals_feasible(table, disk, n);
    lemma_file_removals_feasible(table, table.after(disk, folders), n);
    lemma_after_concat(table, disk, folders, file_removals(table.assets, n));
}

/// Folder removals only take away, only what the table names, and they
/// take away the folder of every asset below `upto`.
pub proof fn lemma_folder_removals_prune(table: Table, disk: Disk, upto: nat)
    requires
        upto <= table.assets.len() <= usize::MAX,
    ensures
        table.pruned(disk, table.after(disk, folder_removals(table.assets, upto))),
        forall|i: int|
            0 <= i < upto && (#[trigger] table.assets[i]).place.folder is Some ==> !table.after(
                disk,
                folder_removals(table.assets, upto),
            ).root.contains_key(table.assets[i].anchor()),
    decreases upto,
{
    if upto > 0 {
        let i = upto - 1;
        let before = folder_removals(table.assets, i as nat);
        lemma_folder_removals_prune(table, disk, i as nat);
        let mid = table.after(disk, before);
        if leads_folder(table.assets, i) {
            let step = Step::RemoveFolder { of: i as usize };
            lemma_after_push(table, disk, before, step);
            let name = table.assets[i].anchor();
            assert(table.anchors(name));
        }
    }
}

/// File removals only take away, only what the table names, and they take
/// away the file of every asset below `upto` that lies in the root.
pub proof fn lemma_file_removals_prune(table: Table, disk: Disk, upto: nat)
    requires
        upto <= table.assets.len() <= usize::MAX,
    ensures
        table.pruned(disk, table.after(disk, file_removals(table.assets, upto))),
        forall|i: int|
            0 <= i < upto && (#[trigger] table.assets[i]).place.folder is None ==> !table.after(
                disk,
                file_removals(table.assets, upto),
            ).root.contains_key(table.assets[i].anchor()),
    decreases upto,
{
    if upto > 0 {
        let i = upto - 1;
        let before = file_removals(table.assets, i as nat);
        lemma_file_removals_prune(table, disk, i as nat);
        if table.assets[i].place.folder is None {
            let step = Step::RemoveFile { asset: i as usize };
            lemma_after_push(table, disk, before, step);
            let name = table.assets[i].anchor();
            assert(table.anchors(name));
        }
    }
}

/// After a cleanup in which every removal went through, nothing that the
/// table names is left in the root, whatever was on the disk before; and
/// nothing else is missing or changed.
pub proof fn law_cleanup_leaves_nothing(table: Table, disk: Disk)
    requires
        table.valid(),
        table.feasible(disk, table.cleanup()),
    ensures
        table.gone(table.after(disk, table.cleanup())),
        table.pruned(disk, table.after(disk, table.cleanup())),
        forall|i: int|
            0 <= i < table.assets.len() ==> table.after(disk, table.cleanup()).content(
                (#[trigger] table.assets[i]).place,
            ) is None,
{
    lemma_cleanup_prunes(table, disk);
}

/// What `law_cleanup_leaves_nothing` says holds of the effects alone.
pub proof fn lemma_cleanup_prunes(table: Table, disk: Disk)
    requires
        table.assets.len() <= usize::MAX,
    ensures
        table.gone(table.after(disk, table.cleanup())),
        table.pruned(disk, table.after(disk, table.cleanup())),
        forall|i: int|
            0 <= i < table.assets.len() ==> table.after(disk, table.cleanup()).content(
                (#[trigger] table.assets[i]).place,
            ) is None,
{
    let n = table.assets.len();
    let folders = folder_removals(table.assets, n);
    let files = file_removals(table.assets, n);
    lemma_after_concat(table, disk, folders, files);
    lemma_folder_removals_prune(table, disk, n);
    let mid = table.after(disk, folders);
    lemma_file_removals_prune(table, mid, n);
    let end = table.after(disk, table.cleanup());
    assert(end == table.after(mid, files));
    assert(table.gone(end)) by {
        assert forall|i: int| 0 <= i < n implies !end.root.contains_key(
            (#[trigger] table.assets[i]).anchor(),
        ) by {
            if table.assets[i].place.folder is Some {
                assert(!mid.root.contains_key(table.assets[i].anchor()));
            }
        }
    }
}

/// Whatever the installer and the two wallpaper steps come to: if no
/// deployment step fails, every removal is attempted, and if every removal
/// goes through, the run ends as completed and nothing that the table names
/// is left in the root.
pub proof fn law_cleanup_follows_whatever_the_errands(
    table: Table,
    disk: Disk,
    outcomes: Seq<Outcome>,
)
    requires
        table.valid(),
        outcomes.len() == table.script().len(),
        deployed_well(table, outcomes),
        forall|i: int|
            table.deployment().len() + 3 <= i < outcomes.len() ==> #[trigger] outcomes[i]
                is Succeeded,
    ensures
        play(table, outcomes) == statuses(table, outcomes),
        directive_of(table, play(table, outcomes)) == Directive::Finish(Verdict::Completed),
        table.gone(table.after(disk, table.script())),
{
    law_run_goes_through(table, outcomes);
    law_verdict(table, outcomes);
    lemma_run_end(table, disk);
}

/// Every step of the script speaks of assets of the table.
pub proof fn lemma_script_known(table: Table)
    requires
        table.valid(),
    ensures
        forall|k: int| 0 <= k < table.script().len() ==> table.knows(#[trigger] table.script()[k]),
{
    let n = table.assets.len();
    lemma_script_shape(table);
    lemma_creations_shape(table.assets, n);
    lemma_folder_removals_shape(table.assets, n);
    lemma_file_removals_shape(table.assets, n);
    let d = table.deployment().len();
    let c = creations(table.assets, n).len();
    let r = folder_removals(table.assets, n).len();
    assert forall|k: int| 0 <= k < table.script().len() implies table.knows(
        #[trigger] table.script()[k],
    ) by {
        if k < c {
            assert(table.script()[k] == creations(table.assets, n)[k]);
        } else if k < d {
            assert(table.script()[k] == writes(n)[k - c]);
        } else if k < d + 3 {
        } else if k < d + 3 + r {
            assert(table.script()[k] == table.cleanup()[k - d - 3]);
            assert(table.cleanup()[k - d - 3] == folder_removals(table.assets, n)[k - d - 3]);
        } else {
            assert(table.script()[k] == table.cleanup()[k - d - 3]);
            assert(table.cleanup()[k - d - 3] == file_removals(table.assets, n)[k - d - 3 - r]);
        }
    }
}

/// Steps that speak of assets of the table change nothing in the root but
/// under the names that those assets take up.
pub proof fn lemma_steps_stay_home(table: Table, disk: Disk, steps: Seq<Step>)
    requires
        forall|k: int| 0 <= k < steps.len() ==> table.knows(#[trigger] steps[k]),
    ensures
        table.same_elsewhere(table.after(disk, steps), disk),
    decreases steps.len(),
{
    if steps.len() > 0 {
        let before = steps.drop_last();
        assert forall|k: int| 0 <= k < before.len() implies table.knows(#[trigger] before[k]) by {
            assert(before[k] == steps[k]);
        }
        lemma_steps_stay_home(table, disk, before);
        let mid = table.after(disk, before);
        let step = steps.last();
        assert(table.knows(steps[steps.len() - 1]));
        let next = table.effect(mid, step);
        assert forall|name: Seq<char>| !table.anchors(name) implies (
        #[trigger] next.root.contains_key(name) == disk.root.contains_key(name)) && (
        next.root.contains_key(name) ==> next.root[name] == disk.root[name]) by {
            match step {
                Step::CreateFolder { of } => {
                    assert(table.anchors(table.assets[of as int].anchor()));
                },
                Step::WriteAsset { asset } => {
                    assert(table.anchors(table.assets[asset as int].anchor()));
                },
                Step::RemoveFolder { of } => {
                    assert(table.anchors(table.assets[of as int].anchor()));
                },
                Step::RemoveFile { asset } => {
                    assert(table.anchors(table.assets[asset as int].anchor()));
                },
                _ => {},
            }
            assert(mid.root.contains_key(name) == disk.root.contains_key(name));
        }
    }
}

/// The disk at the end of a run: what was there before, without whatever
/// stood under a name that an asset of the table takes up.
pub proof fn lemma_run_end(table: Table, disk: Disk)
    requires
        table.valid(),
    ensures
        table.gone(table.after(disk, table.script())),
        table.same_elsewhere(table.after(disk, table.script()), disk),
{
    let head = table.deployment() + table.errands();
    lemma_after_concat(table, disk, head, table.cleanup());
    lemma_cleanup_prunes(table, table.after(disk, head));
    lemma_script_known(table);
    lemma_steps_stay_home(table, disk, table.script());
}

/// On a receptive disk every step of the script goes through.
pub proof fn lemma_run_feasible(table: Table, disk: Disk)
    requires
        table.valid(),
        table.receptive(disk),
    ensures
        table.feasible(disk, table.script()),
{
    lemma_script_shape(table);
    let deployment = table.deployment();
    let errands = table.errands();
    lemma_deployment_feasible(table, disk);
    law_deployment_lands_every_payload(table, disk);
    let laden = table.after(disk, deployment);
    lemma_after_push(table, laden, Seq::empty(), errands[0]);
    lemma_after_push(table, laden, seq![errands[0]], errands[1]);
    lemma_after_push(table, laden, seq![errands[0], errands[1]], errands[2]);
    assert(seq![errands[0]] =~= Seq::<Step>::empty().push(errands[0]));
    assert(seq![errands[0], errands[1]] =~= seq![errands[0]].push(errands[1]));
    assert(errands =~= seq![errands[0], errands[1]].push(errands[2]));
    assert(table.after(laden, errands) == laden);
    assert(table.feasible(laden, errands));
    lemma_cleanup_feasible(table, laden);
    lemma_after_concat(table, disk, deployment, errands);
    lemma_after_concat(table, disk, deployment + errands, table.cleanup());
}

/// A run in which every step went through leaves nothing of the manifest
/// behind and touches nothing else. A second run on the disk that the first
/// one left goes through as well and ends on the very same disk.
pub proof fn law_second_run_ends_alike(table: Table, disk: Disk)
    requires
        table.valid(),
        table.feasible(disk, table.script()),
    ensures
        table.gone(table.after(disk, table.script())),
        table.same_elsewhere(table.after(disk, table.script()), disk),
        table.feasible(table.after(disk, table.script()), table.script()),
        table.after(table.after(disk, table.script()), table.script()) == table.after(
            disk,
            table.script(),
        ),
{
    let once = table.after(disk, table.script());
    lemma_run_end(table, disk);
    assert(table.receptive(once));
    lemma_run_feasible(table, once);
    let twice = table.after(once, table.script());
    lemma_run_end(table, once);
    assert(twice.root =~= once.root) by {
        assert forall|name: Seq<char>| twice.root.contains_key(name) == once.root.contains_key(
            name,
        ) && (twice.root.contains_key(name) ==> twice.root[name] == once.root[name]) by {
            if table.anchors(name) {
                let i = choose|i: int|
                    0 <= i < table.assets.len() && (#[trigger] table.assets[i]).anchor() == name;
                assert(!twice.root.contains_key(table.assets[i].anchor()));
                assert(!once.root.contains_key(table.assets[i].anchor()));
            }
        }
    }
}

} // verus!
