//! Assets and the manifest that lists them.
//!
//! An asset is a named, immutable byte payload with a fixed destination
//! below the installer's root directory: either directly in the root or in
//! one folder below it. The manifest is the ordered table of all assets
//! together with the roles that four of them play in the run.

use vstd::prelude::*;

verus! {

/// Characters that never occur in a plain name: both path separators, the
/// drive and stream marker, and NUL.
pub open spec fn forbidden(c: char) -> bool {
    c == '/' || c == '\\' || c == ':' || c == '\0'
}

/// A plain name is one path component that stays where it is put: it is not
/// empty, it is neither `.` nor `..`, and it holds no forbidden character.
pub open spec fn plain_name(name: Seq<char>) -> bool {
    &&& name.len() > 0
    &&& !(name.len() == 1 && name[0] == '.')
    &&& !(name.len() == 2 && name[0] == '.' && name[1] == '.')
    &&& forall|i: int| 0 <= i < name.len() ==> !forbidden(#[trigger] name[i])
}

/// Whether `c` is a forbidden character.
pub fn is_forbidden(c: char) -> (r: bool)
    ensures
        r == forbidden(c),
{
    c == '/' || c == '\\' || c == ':' || c == '\0'
}

/// Whether `name` is a plain name.
pub fn is_plain_name(name: &str) -> (r: bool)
    ensures
        r == plain_name(name@),
{
    let n: usize = name.unicode_len();
    if n == 0 {
        return false;
    }
    if n == 1 && name.get_char(0) == '.' {
        return false;
    }
    if n == 2 && name.get_char(0) == '.' && name.get_char(1) == '.' {
        return false;
    }
    let mut i: usize = 0;
    while i < n
        invariant
            n == name@.len(),
            i <= n,
            forall|k: int| 0 <= k < i ==> !forbidden(#[trigger] name@[k]),
        decreases n - i,
    {
        if is_forbidden(name.get_char(i)) {
            return false;
        }
        i += 1;
    }
    true
}

/// Where an asset goes, relative to the root: the folder below the root, if
/// any, and the file name.
pub struct Place {
    pub folder: Option<Seq<char>>,
    pub file: Seq<char>,
}

/// What an asset is, as plain mathematics.
pub struct AssetView {
    pub name: Seq<char>,
    pub place: Place,
    pub payload: Seq<u8>,
}

/// A named byte payload with its destination.
#[derive(Clone, Debug, PartialEq, Eq)]
pub struct Asset {
    /// Symbolic name, for people.
    pub name: String,
    /// Folder below the root that holds the file; `None` for the root itself.
    pub folder: Option<String>,
    /// File name at the destination.
    pub file: String,
    /// The bytes to write.
    pub payload: Vec<u8>,
}

impl View for Asset {
    type V = AssetView;

    open spec fn view(&self) -> AssetView {
        AssetView {
            name: self.name@,
            place: Place {
                folder: match self.folder {
                    Some(f) => Some(f@),
                    None => None,
                },
                file: self.file@,
            },
            payload: self.payload@,
        }
    }
}

impl Asset {
    /// Whether this asset's folder, if it has one, and its file name are
    /// plain names.
    pub fn has_plain_names(&self) -> (r: bool)
        ensures
            r == self@.plainly_named(),
    {
        let folder_ok = match &self.folder {
            Some(f) => is_plain_name(f.as_str()),
            None => true,
        };
        folder_ok && is_plain_name(self.file.as_str())
    }

    /// Whether this asset lies in the folder called `folder`.
    pub fn lies_in(&self, folder: &String) -> (r: bool)
        ensures
            r == (self@.place.folder == Some(folder@)),
    {
        match &self.folder {
            Some(f) => *f == *folder,
            None => false,
        }
    }

    /// Whether this asset and `other` have the same destination.
    pub fn same_place(&self, other: &Asset) -> (r: bool)
        ensures
            r == (self@.place == other@.place),
    {
        let same_folder = match &self.folder {
            Some(f) => other.lies_in(f),
            None => other.folder.is_none(),
        };
        same_folder && self.file == other.file
    }
}

impl AssetView {
    /// The folder, if any, and the file name are plain names.
    pub open spec fn plainly_named(self) -> bool {
        &&& plain_name(self.place.file)
        &&& self.place.folder matches Some(f) ==> plain_name(f)
    }
}

/// The four assets that the run singles out, by their position in the table.
#[derive(Clone, Copy, Debug, PartialEq, Eq, Structural)]
pub struct Roles {
    /// The runtime installer that is launched after deployment.
    pub installer: usize,
    /// The image for the desktop background.
    pub wallpaper: usize,
    /// The image for the lock screen.
    pub lock_image: usize,
    /// The helper executable that sets the lock screen image.
    pub helper: usize,
}

/// Why a table of assets is no manifest.
#[derive(Clone, Copy, Debug, PartialEq, Eq, Structural)]
pub enum ManifestError {
    /// A role points past the end of the table.
    UnknownAsset,
    /// A folder or file name is not a plain name.
    BadName,
    /// Two assets have the same destination.
    DuplicateDestination,
    /// A file in the root has the name of a folder of the table.
    FolderClash,
}

/// The views of a sequence of assets.
pub open spec fn entries(assets: Seq<Asset>) -> Seq<AssetView> {
    assets.map_values(|a: Asset| a@)
}

/// Every folder and file name among `assets` is a plain name.
pub open spec fn names_plain(assets: Seq<AssetView>) -> bool {
    forall|i: int| 0 <= i < assets.len() ==> (#[trigger] assets[i]).plainly_named()
}

/// No two of `assets` share a destination.
pub open spec fn places_distinct(assets: Seq<AssetView>) -> bool {
    forall|i: int, j: int|
        0 <= i < j < assets.len() ==> (#[trigger] assets[i]).place != (#[trigger] assets[j]).place
}

/// The asset at `i` lies in the root under the name of the folder that the
/// asset at `j` lies in.
pub open spec fn clash(assets: Seq<AssetView>, i: int, j: int) -> bool {
    &&& assets[i].place.folder is None
    &&& assets[j].place.folder == Some(assets[i].place.file)
}

/// No file in the root has the name of a folder that one of `assets` lies in.
pub open spec fn folders_free(assets: Seq<AssetView>) -> bool {
    forall|i: int, j: int|
        0 <= i < assets.len() && 0 <= j < assets.len() ==> !#[trigger] clash(assets, i, j)
}

/// A table of assets with roles, as plain mathematics.
pub struct Table {
    pub assets: Seq<AssetView>,
    pub roles: Roles,
}

impl Table {
    /// Every role names an asset of the table.
    pub open spec fn roles_known(self) -> bool {
        &&& self.roles.installer < self.assets.len()
        &&& self.roles.wallpaper < self.assets.len()
        &&& self.roles.lock_image < self.assets.len()
        &&& self.roles.helper < self.assets.len()
    }

    /// Every folder and file name is a plain name.
    pub open spec fn names_plain(self) -> bool {
        names_plain(self.assets)
    }

    /// No two assets share a destination.
    pub open spec fn places_distinct(self) -> bool {
        places_distinct(self.assets)
    }

    /// No file in the root has the name of a folder of the table.
    pub open spec fn folders_free(self) -> bool {
        folders_free(self.assets)
    }

    /// What makes a table a manifest: none of the four faults is in it,
    /// and every asset can be named by its position.
    pub open spec fn valid(self) -> bool {
        &&& self.assets.len() <= usize::MAX
        &&& self.roles_known()
        &&& self.names_plain()
        &&& self.places_distinct()
        &&& self.folders_free()
    }

    /// The first reason, in the order of `ManifestError`, why the table is
    /// not valid.
    pub open spec fn fault(self) -> Option<ManifestError> {
        if !self.roles_known() {
            Some(ManifestError::UnknownAsset)
        } else if !self.names_plain() {
            Some(ManifestError::BadName)
        } else if !self.places_distinct() {
            Some(ManifestError::DuplicateDestination)
        } else if !self.folders_free() {
            Some(ManifestError::FolderClash)
        } else {
            None
        }
    }
}

/// Whether every asset has plain names.
fn all_plainly_named(assets: &Vec<Asset>) -> (r: bool)
    ensures
        r == names_plain(entries(assets@)),
{
    let mut i: usize = 0;
    while i < assets.len()
        invariant
            i <= assets.len(),
            forall|k: int| 0 <= k < i ==> (#[trigger] entries(assets@)[k]).plainly_named(),
        decreases assets.len() - i,
    {
        if !assets[i].has_plain_names() {
            assert(!entries(assets@)[i as int].plainly_named());
            return false;
        }
        i += 1;
    }
    true
}

/// Whether no two assets share a destination.
fn all_places_distinct(assets: &Vec<Asset>) -> (r: bool)
    ensures
        r == places_distinct(entries(assets@)),
{
    let ghost es = entries(assets@);
    let mut j: usize = 0;
    while j < assets.len()
        invariant
            j <= assets.len(),
            es == entries(assets@),
            forall|a: int, b: int| 0 <= a < b < j ==> (#[trigger] es[a]).place != (#[trigger] es[b]).place,
        decreases assets.len() - j,
    {
        let mut i: usize = 0;
        while i < j
            invariant
                i <= j < assets.len(),
                es == entries(assets@),
                forall|a: int| 0 <= a < i ==> (#[trigger] es[a]).place != es[j as int].place,
            decreases j - i,
        {
            if assets[i].same_place(&assets[j]) {
                assert(es[i as int].place == es[j as int].place);
                return false;
            }
            i += 1;
        }
        j += 1;
    }
    true
}

/// Whether no file in the root has the name of a folder of the table.
fn all_folders_free(assets: &Vec<Asset>) -> (r: bool)
    ensures
        r == folders_free(entries(assets@)),
{
    let ghost es = entries(assets@);
    let mut i: usize = 0;
    while i < assets.len()
        invariant
            i <= assets.len(),
            es == entries(assets@),
            forall|a: int, b: int| 0 <= a < i && 0 <= b < assets.len() ==> !#[trigger] clash(es, a, b),
        decreases assets.len() - i,
    {
        if assets[i].folder.is_none() {
            let mut j: usize = 0;
            while j < assets.len()
                invariant
                    i < assets.len(),
                    j <= assets.len(),
                    es == entries(assets@),
                    assets[i as int].folder is None,
                    forall|b: int| 0 <= b < j ==> !#[trigger] clash(es, i as int, b),
                decreases assets.len() - j,
            {
                if assets[j].lies_in(&assets[i].file) {
                    assert(clash(es, i as int, j as int));
                    return false;
                }
                j += 1;
            }
        }
        i += 1;
    }
    true
}

/// The ordered table of assets, with the roles that four of them play.
/// Every manifest is valid: see `Table::valid`.
#[derive(Clone, Debug)]
pub struct Manifest {
    assets: Vec<Asset>,
    roles: Roles,
}

impl View for Manifest {
    type V = Table;

    closed spec fn view(&self) -> Table {
        Table { assets: entries(self.assets@), roles: self.roles }
    }
}

impl Manifest {
    /// The invariant of the type.
    pub open spec fn wf(&self) -> bool {
        self@.valid()
    }

    /// Makes a manifest of `assets` and `roles` if they form a valid table,
    /// and says what is wrong with them if they do not.
    pub fn new(assets: Vec<Asset>, roles: Roles) -> (r: Result<Manifest, ManifestError>)
        ensures
            match r {
                Ok(m) => m.wf() && m@ == (Table { assets: entries(assets@), roles }),
                Err(e) => (Table { assets: entries(assets@), roles }).fault() == Some(e),
            },
            r is Ok <==> (Table { assets: entries(assets@), roles }).valid(),
    {
        let n = assets.len();
        if roles.installer >= n || roles.wallpaper >= n || roles.lock_image >= n || roles.helper
            >= n {
            return Err(ManifestError::UnknownAsset);
        }
        if !all_plainly_named(&assets) {
            return Err(ManifestError::BadName);
        }
        if !all_places_distinct(&assets) {
            return Err(ManifestError::DuplicateDestination);
        }
        if !all_folders_free(&assets) {
            return Err(ManifestError::FolderClash);
        }
        Ok(Manifest { assets, roles })
    }

    /// The assets, in table order.
    pub fn assets(&self) -> (a: &Vec<Asset>)
        ensures
            entries(a@) == self@.assets,
    {
        &self.assets
    }

    /// The number of assets.
    pub fn len(&self) -> (n: usize)
        ensures
            n == self@.assets.len(),
    {
        self.assets.len()
    }

    /// The asset at position `index`.
    pub fn asset(&self, index: usize) -> (a: &Asset)
        requires
            index < self@.assets.len(),
        ensures
            a@ == self@.assets[index as int],
    {
        &self.assets[index]
    }

    /// The roles.
    pub fn roles(&self) -> (r: Roles)
        ensures
            r == self@.roles,
    {
        self.roles
    }
}

} // verus!
