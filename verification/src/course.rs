//! The course of a run: which steps are attempted, for every way the steps
//! can end.

use vstd::prelude::*;
use crate::asset::{AssetView, Table};
use crate::outcome::{Outcome, Status, status_of};
use crate::run::{Directive, Verdict, coherent, directive_of, extended, halted, pending};
use crate::script::{Step, creations, file_removals, folder_removals, leads_folder, writes};

verus! {

/// Every step of `creations` creates the folder of an asset below `upto`
/// that leads its folder.
pub proof fn lemma_creations_shape(assets: Seq<AssetView>, upto: nat)
    requires
        upto <= usize::MAX,
    ensures
        forall|k: int|
            0 <= k < creations(assets, upto).len() ==> {
                let step = #[trigger] creations(assets, upto)[k];
                &&& step is CreateFolder
                &&& step->CreateFolder_of < upto
                &&& leads_folder(assets, step->CreateFolder_of as int)
            },
    decreases upto,
{
    if upto > 0 {
        lemma_creations_shape(assets, (upto - 1) as nat);
    }
}

/// Every step of `folder_removals` removes the folder of an asset below
/// `upto` that leads its folder.
pub proof fn lemma_folder_removals_shape(assets: Seq<AssetView>, upto: nat)
    requires
        upto <= usize::MAX,
    ensures
        forall|k: int|
            0 <= k < folder_removals(assets, upto).len() ==> {
                let step = #[trigger] folder_removals(assets, upto)[k];
                &&& step is RemoveFolder
                &&& step->RemoveFolder_of < upto
                &&& leads_folder(assets, step->RemoveFolder_of as int)
            },
    decreases upto,
{
    if upto > 0 {
        lemma_folder_removals_shape(assets, (upto - 1) as nat);
    }
}

/// Every step of `file_removals` removes the file of an asset below `upto`
/// that lies in the root.
pub proof fn lemma_file_removals_shape(assets: Seq<AssetView>, upto: nat)
    requires
        upto <= usize::MAX,
    ensures
        forall|k: int|
            0 <= k < file_removals(assets, upto).len() ==> {
                let step = #[trigger] file_removals(assets, upto)[k];
                &&& step is RemoveFile
                &&& step->RemoveFile_asset < upto
                &&& assets[step->RemoveFile_asset as int].place.folder is None
            },
    decreases upto,
{
    if upto > 0 {
        lemma_file_removals_shape(assets, (upto - 1) as nat);
    }
}

/// A table with at least one asset has something to clean up.
pub proof fn lemma_removals_nonempty(assets: Seq<AssetView>, upto: nat)
    requires
        0 < upto,
    ensures
        folder_removals(assets, upto).len() + file_removals(assets, upto).len() > 0,
    decreases upto,
{
    if upto > 1 {
        lemma_removals_nonempty(assets, (upto - 1) as nat);
    } else {
        assert(leads_folder(assets, 0) || assets[0].place.folder is None);
        assert(folder_removals(assets, 0).len() == 0);
        assert(file_removals(assets, 0).len() == 0);
    }
}

/// The script falls into three parts: deployment steps, then the three
/// errands, then cleanup steps, of which there is at least one.
pub proof fn lemma_script_shape(table: Table)
    requires
        table.valid(),
    ensures
        table.script().len() == table.deployment().len() + 3 + table.cleanup().len(),
        table.deployment().len() > 0,
        table.cleanup().len() > 0,
        forall|i: int|
            0 <= i < table.deployment().len() ==> (#[trigger] table.script()[i]).deploys()
                && table.script()[i] == table.deployment()[i],
        table.script()[table.deployment().len() as int] == (Step::InstallRuntime {
            installer: table.roles.installer,
        }),
        table.script()[(table.deployment().len() + 1) as int] == (Step::SetDesktop {
            image: table.roles.wallpaper,
        }),
        table.script()[(table.deployment().len() + 2) as int] == (Step::SetLockScreen {
            helper: table.roles.helper,
            image: table.roles.lock_image,
        }),
        forall|i: int|
            table.deployment().len() + 3 <= i < table.script().len() ==> (
            #[trigger] table.script()[i]).cleans() && table.script()[i] == table.cleanup()[i
                - table.deployment().len() - 3],
{
    let n = table.assets.len();
    lemma_creations_shape(table.assets, n);
    lemma_folder_removals_shape(table.assets, n);
    lemma_file_removals_shape(table.assets, n);
    lemma_removals_nonempty(table.assets, n);
    let d = table.deployment().len();
    let c = creations(table.assets, n).len();
    assert forall|i: int| 0 <= i < d implies (#[trigger] table.script()[i]).deploys()
        && table.script()[i] == table.deployment()[i] by {
        if i < c {
            assert(table.deployment()[i] == creations(table.assets, n)[i]);
        } else {
            assert(table.deployment()[i] == writes(n)[i - c]);
        }
    }
    let r = folder_removals(table.assets, n).len();
    assert forall|i: int| d + 3 <= i < table.script().len() implies (
    #[trigger] table.script()[i]).cleans() && table.script()[i] == table.cleanup()[i - d - 3] by {
        let k = i - d - 3;
        if k < r {
            assert(table.cleanup()[k] == folder_removals(table.assets, n)[k]);
        } else {
            assert(table.cleanup()[k] == file_removals(table.assets, n)[k - r]);
        }
    }
}

/// Whatever the runtime installer came to, setting the desktop wallpaper is
/// next: a failed installation is reported and the run goes on.
pub proof fn law_installer_never_blocks(table: Table, report: Seq<Status>, outcome: Outcome)
    requires
        table.valid(),
        coherent(table, report),
        pending(table, report) == Some(Step::InstallRuntime { installer: table.roles.installer }),
    ensures
        pending(table, extended(table, report, outcome)) == Some(
            Step::SetDesktop { image: table.roles.wallpaper },
        ),
{
    lemma_script_shape(table);
    let d = table.deployment().len() as int;
    let at = report.len() as int;
    if at < d {
        assert(table.script()[at].deploys());
    } else if at >= d + 3 {
        assert(table.script()[at].cleans());
    }
    assert(at == d);
}

/// Whatever setting the desktop wallpaper came to, setting the lock screen
/// image is next: the two do not depend on each other.
pub proof fn law_desktop_never_blocks(table: Table, report: Seq<Status>, outcome: Outcome)
    requires
        table.valid(),
        coherent(table, report),
        pending(table, report) == Some(Step::SetDesktop { image: table.roles.wallpaper }),
    ensures
        pending(table, extended(table, report, outcome)) == Some(
            Step::SetLockScreen { helper: table.roles.helper, image: table.roles.lock_image },
        ),
{
    lemma_script_shape(table);
    let d = table.deployment().len() as int;
    let at = report.len() as int;
    if at < d {
        assert(table.script()[at].deploys());
    } else if at >= d + 3 {
        assert(table.script()[at].cleans());
    }
    assert(at == d + 1);
}

/// Whatever setting the lock screen image came to, cleanup begins next.
pub proof fn law_lock_screen_never_blocks(table: Table, report: Seq<Status>, outcome: Outcome)
    requires
        table.valid(),
        coherent(table, report),
        pending(table, report) == Some(
            Step::SetLockScreen { helper: table.roles.helper, image: table.roles.lock_image },
        ),
    ensures
        pending(table, extended(table, report, outcome)) == Some(table.cleanup()[0]),
        table.cleanup()[0].cleans(),
{
    lemma_script_shape(table);
    let d = table.deployment().len() as int;
    let at = report.len() as int;
    if at < d {
        assert(table.script()[at].deploys());
    } else if at >= d + 3 {
        assert(table.script()[at].cleans());
    }
    assert(at == d + 2);
    assert(table.script()[d + 3].cleans());
}

/// A failed removal does not keep the other removals from being attempted:
/// after a cleanup step, whatever it came to, the next step of the script
/// is pending, and the run is over only when the script is.
pub proof fn law_cleanup_goes_on(table: Table, report: Seq<Status>, outcome: Outcome)
    requires
        table.valid(),
        coherent(table, report),
        pending(table, report) is Some,
        pending(table, report)->0.cleans(),
    ensures
        extended(table, report, outcome).len() == report.len() + 1,
        !halted(extended(table, report, outcome)),
        report.len() + 1 < table.script().len() ==> pending(
            table,
            extended(table, report, outcome),
        ) == Some(table.script()[(report.len() + 1) as int]),
        report.len() + 1 == table.script().len() ==> pending(
            table,
            extended(table, report, outcome),
        ) is None,
{
}

/// The report of a run that has been handed `outcomes`, one after the
/// other, from the start.
pub open spec fn play(table: Table, outcomes: Seq<Outcome>) -> Seq<Status>
    decreases outcomes.len(),
{
    if outcomes.len() == 0 {
        Seq::empty()
    } else {
        extended(table, play(table, outcomes.drop_last()), outcomes.last())
    }
}

/// No deployment step among the first `outcomes.len()` steps failed.
pub open spec fn deployed_well(table: Table, outcomes: Seq<Outcome>) -> bool {
    forall|i: int|
        0 <= i < outcomes.len() && i < table.deployment().len() ==> #[trigger] outcomes[i]
            is Succeeded
}

/// The statuses that the first steps of the script leave when they end
/// with `outcomes`.
pub open spec fn statuses(table: Table, outcomes: Seq<Outcome>) -> Seq<Status> {
    Seq::new(outcomes.len(), |i: int| status_of(table.script()[i], outcomes[i]))
}

/// As long as no deployment step fails, every step is attempted in the
/// order of the script, whatever the errands and the removals come to: the
/// report holds one status for each outcome.
pub proof fn law_run_goes_through(table: Table, outcomes: Seq<Outcome>)
    requires
        table.valid(),
        outcomes.len() <= table.script().len(),
        deployed_well(table, outcomes),
    ensures
        play(table, outcomes) == statuses(table, outcomes),
        !halted(play(table, outcomes)),
        coherent(table, play(table, outcomes)),
    decreases outcomes.len(),
{
    lemma_script_shape(table);
    if outcomes.len() > 0 {
        let before = outcomes.drop_last();
        assert forall|i: int| 0 <= i < before.len() && i < table.deployment().len() implies (
        #[trigger] before[i]) is Succeeded by {
            assert(before[i] == outcomes[i]);
        }
        law_run_goes_through(table, before);
        let at = before.len() as int;
        let step = table.script()[at];
        assert(pending(table, play(table, before)) == Some(step));
        if at < table.deployment().len() {
            assert(outcomes[at] is Succeeded);
        } else {
            assert(!step.deploys()) by {
                if at >= table.deployment().len() + 3 {
                    assert(table.script()[at].cleans());
                }
            }
        }
        crate::run::lemma_extended_coherent(table, play(table, before), outcomes.last());
        assert(play(table, outcomes) =~= statuses(table, outcomes));
    } else {
        assert(play(table, outcomes) =~= statuses(table, outcomes));
    }
}

/// A run that is over takes no more outcomes.
pub proof fn lemma_play_stays_over(table: Table, head: Seq<Outcome>, tail: Seq<Outcome>)
    requires
        pending(table, play(table, head)) is None,
    ensures
        play(table, head + tail) == play(table, head),
    decreases tail.len(),
{
    if tail.len() == 0 {
        assert(head + tail =~= head);
    } else {
        lemma_play_stays_over(table, head, tail.drop_last());
        assert((head + tail).drop_last() =~= head + tail.drop_last());
    }
}

/// When a deployment step fails, the run stops there: nothing is attempted
/// after it, no cleanup either, and the run ends as aborted.
pub proof fn law_failed_deployment_stops(table: Table, outcomes: Seq<Outcome>, k: int)
    requires
        table.valid(),
        0 <= k < table.deployment().len(),
        k < outcomes.len(),
        outcomes[k] is Failed,
        forall|i: int| 0 <= i < k ==> #[trigger] outcomes[i] is Succeeded,
    ensures
        play(table, outcomes) == statuses(table, outcomes.take(k + 1)),
        directive_of(table, play(table, outcomes)) == Directive::Finish(Verdict::Aborted),
{
    lemma_script_shape(table);
    let head = outcomes.take(k + 1);
    let tail = outcomes.skip(k + 1);
    let before = outcomes.take(k);
    law_run_goes_through(table, before);
    assert(head.drop_last() =~= before);
    assert(head.last() == outcomes[k]);
    assert(table.script()[k].deploys());
    assert(pending(table, play(table, before)) == Some(table.script()[k]));
    assert(play(table, head) =~= statuses(table, head));
    assert(halted(play(table, head)));
    lemma_play_stays_over(table, head, tail);
    assert(head + tail =~= outcomes);
}

/// A run in which no deployment step fails ends when the script does, and
/// it ends as completed exactly if every removal went through; what the
/// errands came to has no part in it.
pub proof fn law_verdict(table: Table, outcomes: Seq<Outcome>)
    requires
        table.valid(),
        outcomes.len() == table.script().len(),
        deployed_well(table, outcomes),
    ensures
        directive_of(table, play(table, outcomes)) == Directive::Finish(
            if forall|i: int|
                table.deployment().len() + 3 <= i < outcomes.len() ==> #[trigger] outcomes[i]
                    is Succeeded {
                Verdict::Completed
            } else {
                Verdict::CleanupIncomplete
            },
        ),
{
    lemma_script_shape(table);
    law_run_goes_through(table, outcomes);
    let report = play(table, outcomes);
    let d = table.deployment().len() as int;
    if forall|i: int| d + 3 <= i < outcomes.len() ==> #[trigger] outcomes[i] is Succeeded {
        assert forall|i: int| 0 <= i < report.len() implies !(#[trigger] report[i]
            is CleanupFailed) by {
            if i >= d + 3 {
                assert(outcomes[i] is Succeeded);
            } else if i < d {
                assert(table.script()[i].deploys());
            }
        }
    } else {
        let i = choose|i: int| d + 3 <= i < outcomes.len() && !(#[trigger] outcomes[i]
            is Succeeded);
        assert(table.script()[i].cleans());
        assert(report[i] is CleanupFailed);
    }
}

} // verus!
