use vstd::prelude::*;

use crate::snapshot::storage::{snapshot_name_at, snapshot_name_prefix, SnapshotMeta};
use crate::text::{push_signed_decimal, signed_decimal, trim_string, trimmed};

verus! {

/// What the user asked for in the snapshot dialog.
#[derive(Debug, Clone, PartialEq, Eq)]
pub enum SnapshotAction {
    Nothing,
    Create(String),
    Delete(i64),
    Rename(i64, String),
    Load(i64),
    OpenComparison(i64),
}

/// State of the snapshot dialog.
#[derive(Debug, Clone)]
pub struct SnapshotDialog {
    pub open: bool,
    pub snapshots: Vec<SnapshotMeta>,
    pub selected_id: Option<i64>,
    pub new_name_buffer: String,
    pub rename_buffer: String,
    pub renaming_id: Option<i64>,
    pub delete_confirm_id: Option<i64>,
    /// Whether the default name has been filled in this session.
    pub default_name_prefilled: bool,
}

impl Default for SnapshotDialog {
    fn default() -> (r: Self)
        ensures
            !r.open,
            r.snapshots@.len() == 0,
            r.selected_id is None,
            r.new_name_buffer@.len() == 0,
            r.rename_buffer@.len() == 0,
            r.renaming_id is None,
            r.delete_confirm_id is None,
            !r.default_name_prefilled,
    {
        SnapshotDialog {
            open: false,
            snapshots: Vec::new(),
            selected_id: None,
            new_name_buffer: String::new(),
            rename_buffer: String::new(),
            renaming_id: None,
            delete_confirm_id: None,
            default_name_prefilled: false,
        }
    }
}

/// Fills the name field with `default_name` unless it was filled before.
pub fn prefill_default_name_with(dialog: &mut SnapshotDialog, default_name: String)
    ensures
        old(dialog).default_name_prefilled ==> *final(dialog) == *old(dialog),
        !old(dialog).default_name_prefilled ==> *final(dialog) == (SnapshotDialog {
            new_name_buffer: default_name,
            default_name_prefilled: true,
            ..*old(dialog)
        }),
{
    if !dialog.default_name_prefilled {
        dialog.new_name_buffer = default_name;
        dialog.default_name_prefilled = true;
    }
}

/// Fills the name field with the default name of a snapshot taken at
/// `stamp` (the local time to the minute, read by the caller), unless it
/// was filled before.
pub fn maybe_prefill_default_name(dialog: &mut SnapshotDialog, stamp: &str)
    ensures
        old(dialog).default_name_prefilled ==> *final(dialog) == *old(dialog),
        !old(dialog).default_name_prefilled ==> {
            &&& final(dialog).default_name_prefilled
            &&& final(dialog).new_name_buffer@ == snapshot_name_prefix() + stamp@
            &&& final(dialog).snapshots == old(dialog).snapshots
            &&& final(dialog).selected_id == old(dialog).selected_id
            &&& final(dialog).open == old(dialog).open
            &&& final(dialog).rename_buffer == old(dialog).rename_buffer
            &&& final(dialog).renaming_id == old(dialog).renaming_id
            &&& final(dialog).delete_confirm_id == old(dialog).delete_confirm_id
        },
{
    if !dialog.default_name_prefilled {
        let name = snapshot_name_at(stamp);
        prefill_default_name_with(dialog, name);
    }
}

/// The name a new snapshot gets from what was typed: the typed text without
/// surrounding white space, or `default_name` when nothing else is left.
pub open spec fn new_snapshot_name(typed: Seq<char>, default_name: Seq<char>) -> Seq<char> {
    if trimmed(typed).len() == 0 {
        default_name
    } else {
        trimmed(typed)
    }
}

/// The name the comparison window shows for a snapshot: its name in the
/// list, or `快照 #id` when the list has none with that id.
pub open spec fn comparison_title(snapshots: Seq<SnapshotMeta>, id: i64) -> Seq<char> {
    if exists|i: int| 0 <= i < snapshots.len() && (#[trigger] snapshots[i]).id == id {
        snapshots[choose|i: int|
            0 <= i < snapshots.len() && (#[trigger] snapshots[i]).id == id && forall|k: int|
                0 <= k < i ==> snapshots[k].id != id].name@
    } else {
        "快照 #"@ + signed_decimal(id as int)
    }
}

impl SnapshotDialog {
    /// Asks for a snapshot from the name field (the "新建" button, or Enter
    /// in the field): the field is emptied and the default name will be
    /// filled in again next time.
    pub fn request_create(&mut self, default_name: String) -> (a: SnapshotAction)
        ensures
            a matches SnapshotAction::Create(n) && n@ == new_snapshot_name(
                old(self).new_name_buffer@,
                default_name@,
            ),
            final(self).new_name_buffer@.len() == 0,
            !final(self).default_name_prefilled,
            final(self).open == old(self).open,
            final(self).snapshots == old(self).snapshots,
            final(self).selected_id == old(self).selected_id,
            final(self).rename_buffer == old(self).rename_buffer,
            final(self).renaming_id == old(self).renaming_id,
            final(self).delete_confirm_id == old(self).delete_confirm_id,
    {
        let t = trim_string(self.new_name_buffer.as_str());
        let name = if t.unicode_len() == 0 {
            default_name
        } else {
            t
        };
        self.new_name_buffer = String::new();
        self.default_name_prefilled = false;
        SnapshotAction::Create(name)
    }

    /// Selects a row of the list.
    pub fn select(&mut self, id: i64)
        ensures
            *final(self) == (SnapshotDialog { selected_id: Some(id), ..*old(self) }),
    {
        self.selected_id = Some(id);
    }

    /// Starts renaming the selected snapshot, with its current name in the
    /// field.
    pub fn start_rename(&mut self)
        ensures
            match old(self).selected_id {
                None => *final(self) == *old(self),
                Some(id) => {
                    &&& final(self).renaming_id == Some(id)
                    &&& (if exists|i: int|
                        0 <= i < old(self).snapshots@.len() && (#[trigger] old(self).snapshots@[i]).id
                            == id {
                        exists|i: int|
                            0 <= i < old(self).snapshots@.len() && (#[trigger] old(
                                self,
                            ).snapshots@[i]).id == id && final(self).rename_buffer@ == old(
                                self,
                            ).snapshots@[i].name@ && forall|k: int|
                                0 <= k < i ==> old(self).snapshots@[k].id != id
                    } else {
                        final(self).rename_buffer == old(self).rename_buffer
                    })
                    &&& final(self).snapshots == old(self).snapshots
                    &&& final(self).selected_id == old(self).selected_id
                    &&& final(self).new_name_buffer == old(self).new_name_buffer
                    &&& final(self).delete_confirm_id == old(self).delete_confirm_id
                    &&& final(self).open == old(self).open
                    &&& final(self).default_name_prefilled == old(self).default_name_prefilled
                },
            },
    {
        match self.selected_id {
            None => {},
            Some(id) => {
                match find_snapshot(&self.snapshots, id) {
                    Some(i) => {
                        self.rename_buffer = self.snapshots[i].name.clone();
                    },
                    None => {},
                }
                self.renaming_id = Some(id);
            },
        }
    }

    /// Confirms a rename: when the selected snapshot is being renamed and the
    /// field is not empty, asks for the rename and leaves renaming.
    pub fn confirm_rename(&mut self) -> (a: SnapshotAction)
        ensures
            ({
                let renaming = old(self).selected_id matches Some(sel) && old(self).renaming_id
                    == Some(sel) && old(self).rename_buffer@.len() > 0;
                if renaming {
                    &&& a matches SnapshotAction::Rename(id, n) && Some(id) == old(self).selected_id
                        && n@ == old(self).rename_buffer@
                    &&& final(self).renaming_id is None
                    &&& final(self).rename_buffer@.len() == 0
                    &&& final(self).selected_id == old(self).selected_id
                    &&& final(self).snapshots == old(self).snapshots
                    &&& final(self).new_name_buffer == old(self).new_name_buffer
                    &&& final(self).delete_confirm_id == old(self).delete_confirm_id
                    &&& final(self).open == old(self).open
                    &&& final(self).default_name_prefilled == old(self).default_name_prefilled
                } else {
                    a == SnapshotAction::Nothing && *final(self) == *old(self)
                }
            }),
    {
        match self.selected_id {
            Some(sel) => {
                let renaming = match self.renaming_id {
                    Some(r) => r == sel,
                    None => false,
                };
                if renaming && self.rename_buffer.unicode_len() > 0 {
                    let name = self.rename_buffer.clone();
                    self.renaming_id = None;
                    self.rename_buffer = String::new();
                    SnapshotAction::Rename(sel, name)
                } else {
                    SnapshotAction::Nothing
                }
            },
            None => SnapshotAction::Nothing,
        }
    }

    /// Leaves renaming without a change.
    pub fn cancel_rename(&mut self)
        ensures
            final(self).renaming_id is None,
            final(self).rename_buffer@.len() == 0,
            final(self).selected_id == old(self).selected_id,
            final(self).snapshots == old(self).snapshots,
            final(self).new_name_buffer == old(self).new_name_buffer,
            final(self).delete_confirm_id == old(self).delete_confirm_id,
            final(self).open == old(self).open,
            final(self).default_name_prefilled == old(self).default_name_prefilled,
    {
        self.renaming_id = None;
        self.rename_buffer = String::new();
    }

    /// Asks to confirm the deletion of the selected snapshot.
    pub fn request_delete(&mut self)
        ensures
            match old(self).selected_id {
                Some(id) => *final(self) == (SnapshotDialog {
                    delete_confirm_id: Some(id),
                    ..*old(self)
                }),
                None => *final(self) == *old(self),
            },
    {
        match self.selected_id {
            Some(id) => {
                self.delete_confirm_id = Some(id);
            },
            None => {},
        }
    }

    /// Answers the deletion question: a confirmed deletion is asked for;
    /// either way the question goes away.
    pub fn answer_delete(&mut self, confirmed: bool) -> (a: SnapshotAction)
        ensures
            match old(self).delete_confirm_id {
                Some(id) => {
                    &&& a == (if confirmed {
                        SnapshotAction::Delete(id)
                    } else {
                        SnapshotAction::Nothing
                    })
                    &&& *final(self) == (SnapshotDialog { delete_confirm_id: None, ..*old(self) })
                },
                None => a == SnapshotAction::Nothing && *final(self) == *old(self),
            },
    {
        match self.delete_confirm_id {
            Some(id) => {
                self.delete_confirm_id = None;
                if confirmed {
                    SnapshotAction::Delete(id)
                } else {
                    SnapshotAction::Nothing
                }
            },
            None => SnapshotAction::Nothing,
        }
    }

    /// Asks to compare the selected snapshot with the current scan, when
    /// there is a scan.
    pub fn request_comparison(&self, scan_available: bool) -> (a: SnapshotAction)
        ensures
            a == match self.selected_id {
                Some(id) => if scan_available {
                    SnapshotAction::OpenComparison(id)
                } else {
                    SnapshotAction::Nothing
                },
                None => SnapshotAction::Nothing,
            },
    {
        match self.selected_id {
            Some(id) => if scan_available {
                SnapshotAction::OpenComparison(id)
            } else {
                SnapshotAction::Nothing
            },
            None => SnapshotAction::Nothing,
        }
    }

    /// Closes the dialog.
    pub fn close(&mut self)
        ensures
            *final(self) == (SnapshotDialog { open: false, ..*old(self) }),
    {
        self.open = false;
    }
}

/// Position of the first snapshot with the given id.
pub fn find_snapshot(snapshots: &Vec<SnapshotMeta>, id: i64) -> (r: Option<usize>)
    ensures
        match r {
            Some(i) => i < snapshots@.len() && snapshots@[i as int].id == id && forall|k: int|
                0 <= k < i ==> (#[trigger] snapshots@[k]).id != id,
            None => forall|k: int| 0 <= k < snapshots@.len() ==> (#[trigger] snapshots@[k]).id != id,
        },
{
    let n = snapshots.len();
    let mut i: usize = 0;
    while i < n
        invariant
            n == snapshots@.len(),
            i <= n,
            forall|k: int| 0 <= k < i ==> (#[trigger] snapshots@[k]).id != id,
        decreases n - i,
    {
        if snapshots[i].id == id {
            return Some(i);
        }
        i = i + 1;
    }
    None
}

/// The title of the comparison with snapshot `id`.
pub fn comparison_name(snapshots: &Vec<SnapshotMeta>, id: i64) -> (r: String)
    ensures
        r@ == comparison_title(snapshots@, id),
{
    match find_snapshot(snapshots, id) {
        Some(i) => {
            proof {
                let w = choose|w: int|
                    0 <= w < snapshots@.len() && (#[trigger] snapshots@[w]).id == id && forall|k: int|
                        0 <= k < w ==> snapshots@[k].id != id;
                if w < i {
                    assert(snapshots@[w].id != id);
                } else if w > i {
                    assert(snapshots@[i as int].id != id);
                }
            }
            snapshots[i].name.clone()
        },
        None => {
            let mut s = String::from_str("快照 #");
            push_signed_decimal(&mut s, id);
            s
        },
    }
}

} // verus!
