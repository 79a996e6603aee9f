//! The reconciler: which tracked folders must get a new type, given what was
//! observed of each on disk.
//!
//! A folder whose type is locked is never touched, and a folder whose path is
//! gone keeps the type it has. Every other folder is classified again, and an
//! update is issued where the result differs from the stored type. The
//! updates are independent point writes, keyed by the folder's id.

use vstd::prelude::*;
use crate::config::{definitions_view, FolderTypeConfig, FolderTypeConfigView};
use crate::folder_type::{classification, detect_folder_type};
use crate::probe::{FolderSnapshot, FolderSnapshotView};

verus! {

/// A tracked folder, as the catalog stores it.
#[derive(Debug, Clone)]
pub struct FolderRow {
    pub id: i64,
    pub name: String,
    pub folder_type: String,
    pub path: String,
    pub folder_type_locked: bool,
}

/// What a [`FolderRow`] holds, as mathematical values.
pub struct FolderRowView {
    pub id: i64,
    pub name: Seq<char>,
    pub folder_type: Seq<char>,
    pub path: Seq<char>,
    pub folder_type_locked: bool,
}

impl View for FolderRow {
    type V = FolderRowView;

    open spec fn view(&self) -> FolderRowView {
        FolderRowView {
            id: self.id,
            name: self.name@,
            folder_type: self.folder_type@,
            path: self.path@,
            folder_type_locked: self.folder_type_locked,
        }
    }
}

/// A tracked folder together with what was found at its path: a snapshot of
/// the folder, or nothing where the path does not exist.
#[derive(Debug, Clone)]
pub struct ObservedFolder {
    pub row: FolderRow,
    pub snapshot: Option<FolderSnapshot>,
}

/// What an [`ObservedFolder`] holds, as mathematical values.
pub struct ObservedFolderView {
    pub row: FolderRowView,
    pub snapshot: Option<FolderSnapshotView>,
}

impl View for ObservedFolder {
    type V = ObservedFolderView;

    open spec fn view(&self) -> ObservedFolderView {
        ObservedFolderView {
            row: self.row@,
            snapshot: match self.snapshot {
                Some(snapshot) => Some(snapshot@),
                None => None,
            },
        }
    }
}

/// One point write to the catalog: the folder with this id gets this type.
#[derive(Debug, Clone)]
pub struct FolderTypeUpdate {
    pub id: i64,
    pub folder_type: String,
}

/// What a [`FolderTypeUpdate`] holds, as mathematical values.
pub struct FolderTypeUpdateView {
    pub id: i64,
    pub folder_type: Seq<char>,
}

impl View for FolderTypeUpdate {
    type V = FolderTypeUpdateView;

    open spec fn view(&self) -> FolderTypeUpdateView {
        FolderTypeUpdateView { id: self.id, folder_type: self.folder_type@ }
    }
}

/// The views of a list of observed folders, element by element.
pub open spec fn observed_view(folders: Seq<ObservedFolder>) -> Seq<ObservedFolderView> {
    Seq::new(folders.len(), |i: int| folders[i]@)
}

/// The views of a list of updates, element by element.
pub open spec fn updates_view(updates: Seq<FolderTypeUpdate>) -> Seq<FolderTypeUpdateView> {
    Seq::new(updates.len(), |i: int| updates[i]@)
}

/// The type that one folder must be given, if any: none for a locked folder,
/// none where the path is gone, none where the detected type is the stored
/// one.
pub open spec fn needed_type(
    folder: ObservedFolderView,
    definitions: Seq<FolderTypeConfigView>,
) -> Option<Seq<char>> {
    if folder.row.folder_type_locked {
        None
    } else {
        match folder.snapshot {
            None => None,
            Some(snapshot) => {
                let detected = classification(snapshot, definitions);
                if detected == folder.row.folder_type {
                    None
                } else {
                    Some(detected)
                }
            },
        }
    }
}

/// The updates that the first `n` folders need, in the order of the folders.
pub open spec fn updates_for_prefix(
    folders: Seq<ObservedFolderView>,
    definitions: Seq<FolderTypeConfigView>,
    n: int,
) -> Seq<FolderTypeUpdateView>
    decreases n,
{
    if n <= 0 {
        Seq::empty()
    } else {
        let earlier = updates_for_prefix(folders, definitions, n - 1);
        match needed_type(folders[n - 1], definitions) {
            Some(folder_type) => earlier.push(
                FolderTypeUpdateView { id: folders[n - 1].row.id, folder_type },
            ),
            None => earlier,
        }
    }
}

/// The updates that one pass over the folders issues.
pub open spec fn reconciliation(
    folders: Seq<ObservedFolderView>,
    definitions: Seq<FolderTypeConfigView>,
) -> Seq<FolderTypeUpdateView> {
    updates_for_prefix(folders, definitions, folders.len() as int)
}

impl FolderRow {
    /// Whether the folder has to be looked at on disk before a pass: a
    /// locked folder has not, since no observation can change it.
    pub fn needs_observation(&self) -> (out: bool)
        ensures
            out == !self.folder_type_locked,
            !out ==> forall|snapshot: Option<FolderSnapshotView>, definitions: Seq<FolderTypeConfigView>|
                #[trigger] needed_type(ObservedFolderView { row: self@, snapshot }, definitions)
                    is None,
    {
        !self.folder_type_locked
    }
}

/// Decides one folder: the type it must be given, or nothing where its
/// stored type stands.
pub fn redetect_folder_type(folder: &ObservedFolder, definitions: &Vec<FolderTypeConfig>) -> (out:
    Option<String>)
    ensures
        match out {
            Some(folder_type) => needed_type(folder@, definitions_view(definitions@)) == Some(
                folder_type@,
            ),
            None => needed_type(folder@, definitions_view(definitions@)) is None,
        },
{
    if folder.row.folder_type_locked {
        return None;
    }
    match &folder.snapshot {
        None => None,
        Some(snapshot) => {
            let detected = detect_folder_type(snapshot, definitions);
            if detected == folder.row.folder_type {
                None
            } else {
                Some(detected)
            }
        },
    }
}

/// One reconciliation pass: the updates to write to the catalog, one for
/// each folder that is unlocked, still exists, and is detected as another
/// type than the one stored, in the order of the folders.
pub fn redetect_folder_types(
    folders: &Vec<ObservedFolder>,
    definitions: &Vec<FolderTypeConfig>,
) -> (out: Vec<FolderTypeUpdate>)
    ensures
        updates_view(out@) == reconciliation(
            observed_view(folders@),
            definitions_view(definitions@),
        ),
{
    let mut updates: Vec<FolderTypeUpdate> = Vec::new();
    let mut i: usize = 0;
    while i < folders.len()
        invariant
            i <= folders.len(),
            updates_view(updates@) == updates_for_prefix(
                observed_view(folders@),
                definitions_view(definitions@),
                i as int,
            ),
        decreases folders.len() - i,
    {
        let ghost before = updates_view(updates@);
        assert(observed_view(folders@)[i as int] == folders[i as int]@);
        match redetect_folder_type(&folders[i], definitions) {
            Some(folder_type) => {
                updates.push(FolderTypeUpdate { id: folders[i].row.id, folder_type });
                assert(updates_view(updates@) == before.push(updates@.last()@));
            },
            None => {},
        }
        i += 1;
    }
    updates
}

/// Whether `k` is the position of the first write of a pass that failed.
pub open spec fn is_first_failure(written: Seq<bool>, k: int) -> bool {
    &&& 0 <= k < written.len()
    &&& !written[k]
    &&& forall|j: int| 0 <= j < k ==> written[j]
}

/// The update to write next, given how each write that was tried has gone:
/// the one behind those that were tried, until each update was tried. A
/// write that failed keeps no later update from being tried.
pub fn next_write(updates: usize, tried: &Vec<bool>) -> (out: Option<usize>)
    ensures
        out == if tried.len() < updates {
            Some(tried.len())
        } else {
            None::<usize>
        },
{
    if tried.len() < updates {
        Some(tried.len())
    } else {
        None
    }
}

/// The outcome of a pass, given how each of its writes has gone: the
/// position of the first write that failed, or nothing where none failed.
pub fn first_failed_write(written: &Vec<bool>) -> (out: Option<usize>)
    ensures
        match out {
            Some(k) => is_first_failure(written@, k as int),
            None => forall|j: int| 0 <= j < written.len() ==> written@[j],
        },
{
    let mut i: usize = 0;
    while i < written.len()
        invariant
            i <= written.len(),
            forall|j: int| 0 <= j < i ==> written@[j],
        decreases written.len() - i,
    {
        if !written[i] {
            return Some(i);
        }
        i += 1;
    }
    None
}

/// The catalog's identity rule: no two folders share an id.
pub open spec fn distinct_ids(folders: Seq<ObservedFolderView>) -> bool {
    forall|i: int, j: int|
        0 <= i < folders.len() && 0 <= j < folders.len() && i != j ==> (#[trigger] folders[i]).row.id
            != (#[trigger] folders[j]).row.id
}

/// A row after one point write: the type is replaced where the id is the
/// update's, and nothing else changes.
pub open spec fn row_after_update(row: FolderRowView, update: FolderTypeUpdateView) -> FolderRowView {
    if row.id == update.id {
        FolderRowView { folder_type: update.folder_type, ..row }
    } else {
        row
    }
}

/// A row after a list of point writes, applied in order.
pub open spec fn row_after(row: FolderRowView, updates: Seq<FolderTypeUpdateView>) -> FolderRowView
    decreases updates.len(),
{
    if updates.len() == 0 {
        row
    } else {
        row_after_update(row_after(row, updates.drop_last()), updates.last())
    }
}

/// The observed folders after the updates were written to the catalog, with
/// nothing changed on disk.
pub open spec fn folders_after(
    folders: Seq<ObservedFolderView>,
    updates: Seq<FolderTypeUpdateView>,
) -> Seq<ObservedFolderView> {
    Seq::new(
        folders.len(),
        |i: int|
            ObservedFolderView {
                row: row_after(folders[i].row, updates),
                snapshot: folders[i].snapshot,
            },
    )
}

/// The row of a folder once the pass has settled it: with the needed type
/// where there is one, unchanged where there is none.
pub open spec fn settled_row(
    folder: ObservedFolderView,
    definitions: Seq<FolderTypeConfigView>,
) -> FolderRowView {
    match needed_type(folder, definitions) {
        Some(folder_type) => FolderRowView { folder_type, ..folder.row },
        None => folder.row,
    }
}

/// Every update of a pass comes from a folder that is unlocked and still
/// exists, carries that folder's id, and sets a type that differs from the
/// stored one.
pub proof fn lemma_updates_come_from_open_folders(
    folders: Seq<ObservedFolderView>,
    definitions: Seq<FolderTypeConfigView>,
    n: int,
    u: int,
)
    requires
        0 <= n <= folders.len(),
        0 <= u < updates_for_prefix(folders, definitions, n).len(),
    ensures
        exists|i: int|
            0 <= i < n && !(#[trigger] folders[i]).row.folder_type_locked && folders[i].snapshot
                is Some && folders[i].row.id == updates_for_prefix(folders, definitions, n)[u].id
                && needed_type(folders[i], definitions) == Some(
                updates_for_prefix(folders, definitions, n)[u].folder_type,
            ) && folders[i].row.folder_type != updates_for_prefix(
                folders,
                definitions,
                n,
            )[u].folder_type,
    decreases n,
{
    let earlier = updates_for_prefix(folders, definitions, n - 1);
    if u < earlier.len() {
        lemma_updates_come_from_open_folders(folders, definitions, n - 1, u);
        let i = choose|i: int|
            0 <= i < n - 1 && !(#[trigger] folders[i]).row.folder_type_locked
                && folders[i].snapshot is Some && folders[i].row.id == earlier[u].id && needed_type(
                folders[i],
                definitions,
            ) == Some(earlier[u].folder_type) && folders[i].row.folder_type
                != earlier[u].folder_type;
        assert(0 <= i < n);
    } else {
        assert(needed_type(folders[n - 1], definitions) is Some);
        assert(!folders[n - 1].row.folder_type_locked);
    }
}

/// After the updates of the first `n` folders are written, each of those
/// folders has its settled row and every other folder has the row it had.
pub proof fn lemma_rows_after_prefix(
    folders: Seq<ObservedFolderView>,
    definitions: Seq<FolderTypeConfigView>,
    n: int,
    i: int,
)
    requires
        distinct_ids(folders),
        0 <= n <= folders.len(),
        0 <= i < folders.len(),
    ensures
        row_after(folders[i].row, updates_for_prefix(folders, definitions, n)) == if i < n {
            settled_row(folders[i], definitions)
        } else {
            folders[i].row
        },
    decreases n,
{
    if n > 0 {
        let earlier = updates_for_prefix(folders, definitions, n - 1);
        lemma_rows_after_prefix(folders, definitions, n - 1, i);
        match needed_type(folders[n - 1], definitions) {
            Some(folder_type) => {
                let update = FolderTypeUpdateView { id: folders[n - 1].row.id, folder_type };
                let all = earlier.push(update);
                assert(all.drop_last() == earlier);
                assert(all.last() == update);
                assert(row_after(folders[i].row, all) == row_after_update(
                    row_after(folders[i].row, earlier),
                    update,
                ));
                if i != n - 1 {
                    assert(folders[i].row.id != folders[n - 1].row.id);
                }
            },
            None => {},
        }
    }
}

/// Idempotence: a second pass, with nothing changed on disk since the first
/// pass was written to the catalog, issues no update.
pub proof fn lemma_second_pass_is_empty(
    folders: Seq<ObservedFolderView>,
    definitions: Seq<FolderTypeConfigView>,
)
    requires
        distinct_ids(folders),
    ensures
        reconciliation(
            folders_after(folders, reconciliation(folders, definitions)),
            definitions,
        ).len() == 0,
{
    let after = folders_after(folders, reconciliation(folders, definitions));
    assert forall|i: int| 0 <= i < after.len() implies needed_type(
        #[trigger] after[i],
        definitions,
    ) is None by {
        lemma_rows_after_prefix(folders, definitions, folders.len() as int, i);
    }
    lemma_no_needs_no_updates(after, definitions, after.len() as int);
}

/// Where none of the first `n` folders needs a type, the pass over them
/// issues no update.
pub proof fn lemma_no_needs_no_updates(
    folders: Seq<ObservedFolderView>,
    definitions: Seq<FolderTypeConfigView>,
    n: int,
)
    requires
        0 <= n <= folders.len(),
        forall|i: int| 0 <= i < n ==> needed_type(#[trigger] folders[i], definitions) is None,
    ensures
        updates_for_prefix(folders, definitions, n).len() == 0,
    decreases n,
{
    if n > 0 {
        lemma_no_needs_no_updates(folders, definitions, n - 1);
    }
}

/// Lock respect: a locked folder has, after the pass is written to the
/// catalog, the row it had before, whatever would be detected for it.
pub proof fn lemma_locked_folder_is_untouched(
    folders: Seq<ObservedFolderView>,
    definitions: Seq<FolderTypeConfigView>,
    i: int,
)
    requires
        distinct_ids(folders),
        0 <= i < folders.len(),
        folders[i].row.folder_type_locked,
    ensures
        folders_after(folders, reconciliation(folders, definitions))[i].row == folders[i].row,
{
    lemma_rows_after_prefix(folders, definitions, folders.len() as int, i);
}

/// Missing path: a folder whose path does not exist has, after the pass is
/// written to the catalog, the row it had before, stored type included.
pub proof fn lemma_missing_folder_is_untouched(
    folders: Seq<ObservedFolderView>,
    definitions: Seq<FolderTypeConfigView>,
    i: int,
)
    requires
        distinct_ids(folders),
        0 <= i < folders.len(),
        folders[i].snapshot is None,
    ensures
        folders_after(folders, reconciliation(folders, definitions))[i].row == folders[i].row,
{
    lemma_rows_after_prefix(folders, definitions, folders.len() as int, i);
}

/// After the pass is written to the catalog, every folder that is unlocked
/// and still exists is stored under the type that is detected for it, and
/// the lock of no folder has changed.
pub proof fn lemma_pass_settles_open_folders(
    folders: Seq<ObservedFolderView>,
    definitions: Seq<FolderTypeConfigView>,
    i: int,
)
    requires
        distinct_ids(folders),
        0 <= i < folders.len(),
    ensures
        folders_after(folders, reconciliation(folders, definitions))[i].row.folder_type_locked
            == folders[i].row.folder_type_locked,
        !folders[i].row.folder_type_locked && folders[i].snapshot is Some ==> folders_after(
            folders,
            reconciliation(folders, definitions),
        )[i].row.folder_type == classification(folders[i].snapshot->0, definitions),
{
    lemma_rows_after_prefix(folders, definitions, folders.len() as int, i);
}

} // verus!
