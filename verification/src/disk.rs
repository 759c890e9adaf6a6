//! A model of the root directory, to say what a run leaves on disk.
//!
//! The model is what the steps of a script mean if nothing else touches the
//! root directory while they run: a step that goes through has exactly the
//! effect written here. Nothing in it is executable; the driver works on the
//! real disk.

use vstd::prelude::*;
use crate::asset::{AssetView, Place, Table};
use crate::script::Step;

verus! {

/// An entry of the root directory: a file with its bytes, or a folder with
/// the files in it.
pub enum Node {
    File(Seq<u8>),
    Folder(Map<Seq<char>, Seq<u8>>),
}

/// The root directory: its entries by name.
pub struct Disk {
    pub root: Map<Seq<char>, Node>,
}

impl AssetView {
    /// The name that the asset takes up in the root: its folder's, or its
    /// own if it lies in the root.
    pub open spec fn anchor(self) -> Seq<char> {
        match self.place.folder {
            Some(folder) => folder,
            None => self.place.file,
        }
    }
}

impl Disk {
    /// The root holds a file called `name`.
    pub open spec fn has_file(self, name: Seq<char>) -> bool {
        self.root.contains_key(name) && self.root[name] is File
    }

    /// The root holds a folder called `name`.
    pub open spec fn has_folder(self, name: Seq<char>) -> bool {
        self.root.contains_key(name) && self.root[name] is Folder
    }

    /// The bytes of the file at `place`, if there is one.
    pub open spec fn content(self, place: Place) -> Option<Seq<u8>> {
        match place.folder {
            None => if self.has_file(place.file) {
                Some(self.root[place.file]->File_0)
            } else {
                None
            },
            Some(folder) => if self.has_folder(folder) && self.root[folder]->Folder_0.contains_key(
                place.file,
            ) {
                Some(self.root[folder]->Folder_0[place.file])
            } else {
                None
            },
        }
    }

    /// The disk once a folder called `name` has been created, unless
    /// something of that name was there.
    pub open spec fn with_folder(self, name: Seq<char>) -> Disk {
        if self.root.contains_key(name) {
            self
        } else {
            Disk { root: self.root.insert(name, Node::Folder(Map::empty())) }
        }
    }

    /// The disk once `bytes` have been written to `place`.
    pub open spec fn with_file(self, place: Place, bytes: Seq<u8>) -> Disk {
        match place.folder {
            None => Disk { root: self.root.insert(place.file, Node::File(bytes)) },
            Some(folder) => Disk {
                root: self.root.insert(
                    folder,
                    Node::Folder(self.root[folder]->Folder_0.insert(place.file, bytes)),
                ),
            },
        }
    }

    /// The disk once the entry called `name` has been removed from the
    /// root, with everything in it.
    pub open spec fn without(self, name: Seq<char>) -> Disk {
        Disk { root: self.root.remove(name) }
    }

    /// The disk once the file at `place` has been removed.
    pub open spec fn without_file(self, place: Place) -> Disk {
        match place.folder {
            None => self.without(place.file),
            Some(folder) => Disk {
                root: self.root.insert(
                    folder,
                    Node::Folder(self.root[folder]->Folder_0.remove(place.file)),
                ),
            },
        }
    }
}

impl Table {
    /// The step speaks of assets of this table, and a folder step of one
    /// that lies in a folder.
    pub open spec fn knows(self, step: Step) -> bool {
        match step {
            Step::CreateFolder { of } => of < self.assets.len() && self.assets[of as int].place.folder
                is Some,
            Step::WriteAsset { asset } => asset < self.assets.len(),
            Step::InstallRuntime { installer } => installer < self.assets.len(),
            Step::SetDesktop { image } => image < self.assets.len(),
            Step::SetLockScreen { helper, image } => helper < self.assets.len() && image
                < self.assets.len(),
            Step::RemoveFolder { of } => of < self.assets.len() && self.assets[of as int].place.folder
                is Some,
            Step::RemoveFile { asset } => asset < self.assets.len(),
        }
    }

    /// Whether `step` can go through on `disk`. A folder can be created
    /// unless a file has its name; a file can be written into the root
    /// unless a folder has its name, and into a folder that is there; only
    /// what is there can be removed. The errands do not depend on the disk.
    pub open spec fn possible(self, disk: Disk, step: Step) -> bool {
        &&& self.knows(step)
        &&& match step {
            Step::CreateFolder { of } => !disk.has_file(self.assets[of as int].anchor()),
            Step::WriteAsset { asset } => match self.assets[asset as int].place.folder {
                None => !disk.has_folder(self.assets[asset as int].place.file),
                Some(folder) => disk.has_folder(folder),
            },
            Step::RemoveFolder { of } => disk.has_folder(self.assets[of as int].anchor()),
            Step::RemoveFile { asset } => disk.content(self.assets[asset as int].place) is Some,
            _ => true,
        }
    }

    /// The disk after `step` has gone through on `disk`. The errands leave
    /// the disk as it is.
    pub open spec fn effect(self, disk: Disk, step: Step) -> Disk {
        match step {
            Step::CreateFolder { of } => disk.with_folder(self.assets[of as int].anchor()),
            Step::WriteAsset { asset } => disk.with_file(
                self.assets[asset as int].place,
                self.assets[asset as int].payload,
            ),
            Step::RemoveFolder { of } => disk.without(self.assets[of as int].anchor()),
            Step::RemoveFile { asset } => disk.without_file(self.assets[asset as int].place),
            _ => disk,
        }
    }

    /// The disk after every one of `steps` has gone through, in order,
    /// starting on `disk`.
    pub open spec fn after(self, disk: Disk, steps: Seq<Step>) -> Disk
        decreases steps.len(),
    {
        if steps.len() == 0 {
            disk
        } else {
            self.effect(self.after(disk, steps.drop_last()), steps.last())
        }
    }

    /// Every one of `steps` can go through, in order, starting on `disk`.
    pub open spec fn feasible(self, disk: Disk, steps: Seq<Step>) -> bool
        decreases steps.len(),
    {
        steps.len() == 0 || (self.feasible(disk, steps.drop_last()) && self.possible(
            self.after(disk, steps.drop_last()),
            steps.last(),
        ))
    }

    /// Nothing in the root of `disk` has the name that an asset of this
    /// table takes up.
    pub open spec fn gone(self, disk: Disk) -> bool {
        forall|i: int|
            0 <= i < self.assets.len() ==> !disk.root.contains_key(
                (#[trigger] self.assets[i]).anchor(),
            )
    }

    /// Every asset of this table is on `disk`, byte for byte.
    pub open spec fn deployed(self, disk: Disk) -> bool {
        forall|i: int|
            0 <= i < self.assets.len() ==> disk.content((#[trigger] self.assets[i]).place) == Some(
                self.assets[i].payload,
            )
    }
}

/// Running one sequence of steps after another is running the two as one.
pub proof fn lemma_after_concat(table: Table, disk: Disk, first: Seq<Step>, second: Seq<Step>)
    ensures
        table.after(disk, first + second) == table.after(table.after(disk, first), second),
        table.feasible(disk, first + second) == (table.feasible(disk, first) && table.feasible(
            table.after(disk, first),
            second,
        )),
    decreases second.len(),
{
    if second.len() == 0 {
        assert(first + second =~= first);
    } else {
        lemma_after_concat(table, disk, first, second.drop_last());
        assert((first + second).drop_last() =~= first + second.drop_last());
        assert((first + second).last() == second.last());
    }
}

/// Running a sequence and then one more step.
pub proof fn lemma_after_push(table: Table, disk: Disk, steps: Seq<Step>, step: Step)
    ensures
        table.after(disk, steps.push(step)) == table.effect(table.after(disk, steps), step),
        table.feasible(disk, steps.push(step)) == (table.feasible(disk, steps) && table.possible(
            table.after(disk, steps),
            step,
        )),
{
    assert(steps.push(step).drop_last() =~= steps);
}

/// A write that goes through puts the bytes at its place and leaves every
/// other place as it was.
pub proof fn lemma_write(disk: Disk, place: Place, bytes: Seq<u8>, other: Place)
    requires
        match place.folder {
            None => !disk.has_folder(place.file),
            Some(folder) => disk.has_folder(folder),
        },
    ensures
        disk.with_file(place, bytes).content(place) == Some(bytes),
        other != place ==> disk.with_file(place, bytes).content(other) == disk.content(other),
{
    let next = disk.with_file(place, bytes);
    match place.folder {
        None => {
            assert(next.root[place.file] == Node::File(bytes));
        },
        Some(folder) => {
            assert(next.root[folder]->Folder_0 == disk.root[folder]->Folder_0.insert(
                place.file,
                bytes,
            ));
        },
    }
    if other != place {
        match other.folder {
            None => {
                if place.folder is None {
                    assert(other.file != place.file);
                }
            },
            Some(g) => {
                if place.folder == Some(g) {
                    assert(other.file != place.file);
                }
            },
        }
    }
}

} // verus!
