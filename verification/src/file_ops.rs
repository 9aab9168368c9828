//! Creating, renaming and deleting files: the questions asked first and the operations that
//! follow.

use vstd::prelude::*;

use crate::model::{
    EntryPath, ErrorCode, FsEntryRef, FsOp, FsScope, PaneSide, PathView, UserFacingError,
};
use crate::nav::{parent, parent_of};
use crate::text::{
    contains_char, decimal, decimal_text, file_name, file_name_in, joined3, same_text,
};

verus! {

/// How many names a delete question lists.
pub const DELETE_NAME_PREVIEW_LIMIT: usize = 8;

/// A name in a delete question.
#[derive(PartialEq, Eq, Debug)]
pub struct DeleteNamePreview {
    pub name: String,
    pub is_dir: bool,
}

/// What a delete question says.
#[derive(PartialEq, Eq, Debug)]
pub struct DeleteConfirmPresentation {
    pub title: String,
    pub names: Vec<DeleteNamePreview>,
    pub overflow: usize,
    pub risk_message: String,
}

/// The name under which a path is shown: its file name, or the whole path where it has none.
pub open spec fn shown_name(path: Seq<char>) -> Seq<char> {
    match file_name(path) {
        Some(name) => name,
        None => path,
    }
}

/// The name under which a path is shown: its file name, or the whole path where it has none.
pub fn display_name(path: &str) -> (r: String)
    ensures
        r@ == shown_name(path@),
{
    match file_name_in(path) {
        Some(name) => name,
        None => path.to_string(),
    }
}

/// How many of the entries are directories.
pub open spec fn directory_count(entries: Seq<FsEntryRef>) -> nat
    decreases entries.len(),
{
    if entries.len() == 0 {
        0
    } else {
        directory_count(entries.drop_last()) + if entries.last().is_dir {
            1nat
        } else {
            0
        }
    }
}

/// How many of the entries a delete question names.
pub open spec fn named_count(entries: Seq<FsEntryRef>) -> int {
    if entries.len() < DELETE_NAME_PREVIEW_LIMIT {
        entries.len() as int
    } else {
        DELETE_NAME_PREVIEW_LIMIT as int
    }
}

/// The headline of a delete question.
pub open spec fn delete_title(entries: Seq<FsEntryRef>) -> Seq<char> {
    if entries.len() == 1 {
        "Delete “"@ + shown_name(entries[0].path@.text) + "”?"@
    } else {
        "Delete "@ + decimal(entries.len()) + " items?"@
    }
}

/// The warning of a delete question.
pub open spec fn delete_risk(count: nat, directories: nat) -> Seq<char> {
    if count == 1 && directories == 1 {
        "This folder and all of its contents will be permanently deleted."@
    } else if count == 1 {
        "This item will be permanently deleted."@
    } else if directories == 0 {
        "These items will be permanently deleted."@
    } else if directories == 1 {
        "This selection includes 1 folder. All selected items and folder contents will be permanently deleted."@
    } else {
        "This selection includes "@ + decimal(directories)
            + " folders. All selected items and folder contents will be permanently deleted."@
    }
}

/// What is asked before the entries are deleted: the first names, how many more there are, and
/// what will be lost.
pub fn delete_confirm_presentation(entries: &[FsEntryRef]) -> (r: DeleteConfirmPresentation)
    ensures
        r.title@ == delete_title(entries@),
        r.names@.len() == named_count(entries@),
        forall|i: int|
            0 <= i < r.names@.len() ==> (#[trigger] r.names@[i]).name@ == shown_name(
                entries@[i].path@.text,
            ) && r.names@[i].is_dir == entries@[i].is_dir,
        r.overflow == entries@.len() - named_count(entries@),
        r.risk_message@ == delete_risk(entries@.len(), directory_count(entries@)),
{
    let count: usize = entries.len();
    let shown: usize = if count < DELETE_NAME_PREVIEW_LIMIT {
        count
    } else {
        DELETE_NAME_PREVIEW_LIMIT
    };
    let mut names: Vec<DeleteNamePreview> = Vec::new();
    let mut directories: usize = 0;
    let mut i: usize = 0;
    while i < count
        invariant
            count == entries@.len(),
            shown == named_count(entries@),
            i <= count,
            names@.len() == if i < shown {
                i
            } else {
                shown
            },
            forall|j: int|
                0 <= j < names@.len() ==> (#[trigger] names@[j]).name@ == shown_name(
                    entries@[j].path@.text,
                ) && names@[j].is_dir == entries@[j].is_dir,
            directories == directory_count(entries@.take(i as int)),
            directories <= i,
        decreases count - i,
    {
        let entry = &entries[i];
        assert(entries@.take(i + 1).drop_last() =~= entries@.take(i as int));
        assert(entries@.take(i + 1).last() == *entry);
        if i < shown {
            names.push(
                DeleteNamePreview {
                    name: display_name(entry.path.as_str()),
                    is_dir: entry.is_dir,
                },
            );
        }
        if entry.is_dir {
            directories += 1;
        }
        i += 1;
    }
    assert(entries@.take(i as int) =~= entries@);
    let title = if count == 1 {
        joined3("Delete “", names[0].name.as_str(), "”?")
    } else {
        joined3("Delete ", decimal_text(count as u64).as_str(), " items?")
    };
    let risk_message = if count == 1 && directories == 1 {
        "This folder and all of its contents will be permanently deleted.".to_string()
    } else if count == 1 {
        "This item will be permanently deleted.".to_string()
    } else if directories == 0 {
        "These items will be permanently deleted.".to_string()
    } else if directories == 1 {
        "This selection includes 1 folder. All selected items and folder contents will be permanently deleted.".to_string()
    } else {
        joined3(
            "This selection includes ",
            decimal_text(directories as u64).as_str(),
            " folders. All selected items and folder contents will be permanently deleted.",
        )
    };
    DeleteConfirmPresentation { title, names, overflow: count - shown, risk_message }
}

/// A delete that waits for the user to confirm it.
#[derive(PartialEq, Eq, Debug)]
pub struct DeleteConfirmState {
    pub scope: FsScope,
    pub entries: Vec<FsEntryRef>,
    pub dont_ask_again: bool,
}

/// What the name being typed is for.
#[derive(PartialEq, Eq, Debug)]
pub enum InlineEditKind {
    Rename { entry: FsEntryRef },
    NewFolder { parent: EntryPath },
}

/// A name being typed in a pane.
#[derive(PartialEq, Eq, Debug)]
pub struct InlineEditState {
    pub side: PaneSide,
    pub kind: InlineEditKind,
    pub input: String,
    pub error: Option<String>,
}

/// An open context menu; without an entry it is that of the blank area.
#[derive(Clone, Copy, PartialEq, Eq, Structural, Debug)]
pub struct ContextMenuState {
    pub side: PaneSide,
    pub entry_index: Option<usize>,
}

/// An item of the context menu.
#[derive(Clone, Copy, PartialEq, Eq, Structural, Debug)]
pub enum ContextItem {
    Rename,
    Delete,
    NewFolder,
    Upload,
    Reveal,
    Edit,
    Download,
    CopyPath,
    Refresh,
}

/// The items of the context menu, in order.
pub open spec fn menu_items(side: PaneSide, on_entry: bool, connected: bool) -> Seq<ContextItem> {
    if !on_entry {
        seq![ContextItem::NewFolder, ContextItem::Refresh]
    } else if side is Local {
        seq![
            ContextItem::Rename,
            ContextItem::Delete,
            ContextItem::NewFolder,
            ContextItem::Upload,
            ContextItem::Reveal,
            ContextItem::CopyPath,
        ]
    } else if connected {
        seq![
            ContextItem::Rename,
            ContextItem::Delete,
            ContextItem::NewFolder,
            ContextItem::Edit,
            ContextItem::Download,
            ContextItem::CopyPath,
        ]
    } else {
        seq![
            ContextItem::Rename,
            ContextItem::Delete,
            ContextItem::NewFolder,
            ContextItem::CopyPath,
        ]
    }
}

/// The items of the context menu of a pane, on an entry or on the blank area.
pub fn context_menu_items(side: PaneSide, on_entry: bool, connected: bool) -> (r: Vec<ContextItem>)
    ensures
        r@ == menu_items(side, on_entry, connected),
{
    let is_local = side == PaneSide::Local;
    let mut items: Vec<ContextItem> = Vec::new();
    if on_entry {
        items.push(ContextItem::Rename);
        items.push(ContextItem::Delete);
    }
    items.push(ContextItem::NewFolder);
    if on_entry && is_local {
        items.push(ContextItem::Upload);
        items.push(ContextItem::Reveal);
    }
    if on_entry && !is_local && connected {
        items.push(ContextItem::Edit);
        items.push(ContextItem::Download);
    }
    if on_entry {
        items.push(ContextItem::CopyPath);
    }
    if !on_entry {
        items.push(ContextItem::Refresh);
    }
    assert(items@ =~= menu_items(side, on_entry, connected));
    items
}

/// A text that can name a single file: not empty, neither `.` nor `..`, and without separators.
pub open spec fn is_plain_name(name: Seq<char>) -> bool {
    name.len() > 0 && name != "."@ && name != ".."@ && !name.contains('/')
}

/// Whether a text can name a single file.
pub fn plain_name(name: &str) -> (r: bool)
    ensures
        r == is_plain_name(name@),
{
    !name.is_empty() && !same_text(name, ".") && !same_text(name, "..") && !contains_char(name, '/')
}

/// The directory of a path on the same side.
pub open spec fn parent_path(path: PathView) -> Option<PathView> {
    match parent(path.text) {
        Some(text) => Some(PathView { side: path.side, text }),
        None => None,
    }
}

/// The view of an optional path.
pub open spec fn path_view(path: Option<EntryPath>) -> Option<PathView> {
    match path {
        Some(path) => Some(path@),
        None => None,
    }
}

/// The directory of a path on the same side.
pub fn parent_entry(path: &EntryPath) -> (r: Option<EntryPath>)
    ensures
        path_view(r) == parent_path(path@),
{
    match parent_of(path.as_str()) {
        Some(text) => Some(EntryPath::on(path.side(), text)),
        None => None,
    }
}

/// The directory whose listing an operation changes.
pub open spec fn changed_directory(op: FsOp) -> Option<PathView> {
    match op {
        FsOp::Delete { entries } => if entries@.len() == 0 {
            None
        } else {
            parent_path(entries@[0].path@)
        },
        FsOp::Rename { from: _, to } => parent_path(to@),
        FsOp::CreateDirectory { parent, name: _ } => Some(parent@),
    }
}

impl FsOp {
    /// The directory whose listing the operation changes.
    pub fn refresh_path(&self) -> (r: Option<EntryPath>)
        ensures
            path_view(r) == changed_directory(*self),
    {
        match self {
            FsOp::Delete { entries } => {
                if entries.len() == 0 {
                    None
                } else {
                    parent_entry(&entries[0].path)
                }
            },
            FsOp::Rename { from: _, to } => parent_entry(to),
            FsOp::CreateDirectory { parent, name: _ } => Some(parent.clone()),
        }
    }
}

/// The next step of a local file operation.
#[derive(PartialEq, Eq, Debug)]
pub enum LocalFsStep {
    Delete { path: String, is_dir: bool },
    Rename { from: String, to: String },
    CreateDirectory { parent: String, name: String },
    Refuse(UserFacingError),
    Done,
}

/// The step is a refusal with the given explanation.
pub open spec fn refuses(step: LocalFsStep, message: Seq<char>) -> bool {
    &&& step is Refuse
    &&& step->Refuse_0.code is Unknown
    &&& step->Refuse_0.title@ == "Invalid local path"@
    &&& step->Refuse_0.message@ == message
    &&& step->Refuse_0.detail is None
}

/// The step of an operation after `done` of its steps were taken.
pub open spec fn step_of(op: FsOp, done: int, step: LocalFsStep) -> bool {
    match op {
        FsOp::Delete { entries } => if done >= entries@.len() {
            step is Done
        } else {
            match entries@[done].path {
                EntryPath::Local(path) => step == (LocalFsStep::Delete {
                    path,
                    is_dir: entries@[done].is_dir,
                }),
                EntryPath::Remote(_) => refuses(step, "Delete paths must be local."@),
            }
        },
        FsOp::Rename { from, to } => if done > 0 {
            step is Done
        } else {
            match (from, to) {
                (EntryPath::Local(from), EntryPath::Local(to)) => step == (LocalFsStep::Rename {
                    from,
                    to,
                }),
                _ => refuses(step, "Rename paths must be local."@),
            }
        },
        FsOp::CreateDirectory { parent, name } => if done > 0 {
            step is Done
        } else {
            match parent {
                EntryPath::Local(parent) => step == (LocalFsStep::CreateDirectory { parent, name }),
                EntryPath::Remote(_) => refuses(step, "Create-folder parent must be local."@),
            }
        },
    }
}

fn invalid_local_path(message: &str) -> (r: LocalFsStep)
    ensures
        refuses(r, message@),
{
    LocalFsStep::Refuse(
        UserFacingError {
            code: ErrorCode::Unknown,
            title: "Invalid local path".to_string(),
            message: message.to_string(),
            detail: None,
        },
    )
}

/// The step that a local file operation takes after `done` steps. An entry of the other side
/// stops it there.
pub fn local_fs_step(op: &FsOp, done: usize) -> (r: LocalFsStep)
    ensures
        step_of(*op, done as int, r),
{
    match op {
        FsOp::Delete { entries } => {
            if done >= entries.len() {
                return LocalFsStep::Done;
            }
            match &entries[done].path {
                EntryPath::Local(path) => LocalFsStep::Delete {
                    path: path.clone(),
                    is_dir: entries[done].is_dir,
                },
                EntryPath::Remote(_) => invalid_local_path("Delete paths must be local."),
            }
        },
        FsOp::Rename { from, to } => {
            if done > 0 {
                return LocalFsStep::Done;
            }
            match (from, to) {
                (EntryPath::Local(from), EntryPath::Local(to)) => LocalFsStep::Rename {
                    from: from.clone(),
                    to: to.clone(),
                },
                _ => invalid_local_path("Rename paths must be local."),
            }
        },
        FsOp::CreateDirectory { parent, name } => {
            if done > 0 {
                return LocalFsStep::Done;
            }
            match parent {
                EntryPath::Local(parent) => LocalFsStep::CreateDirectory {
                    parent: parent.clone(),
                    name: name.clone(),
                },
                EntryPath::Remote(_) => invalid_local_path("Create-folder parent must be local."),
            }
        },
    }
}

/// The headline where a step of an operation on this machine fails.
pub open spec fn failure_headline(op: FsOp) -> Seq<char> {
    match op {
        FsOp::Delete { .. } => "Could not delete"@,
        FsOp::Rename { .. } => "Could not rename"@,
        FsOp::CreateDirectory { .. } => "Could not create folder"@,
    }
}

/// The headline where a step of an operation on this machine fails.
pub fn failure_title(op: &FsOp) -> (r: &'static str)
    ensures
        r@ == failure_headline(*op),
{
    match op {
        FsOp::Delete { .. } => "Could not delete",
        FsOp::Rename { .. } => "Could not rename",
        FsOp::CreateDirectory { .. } => "Could not create folder",
    }
}

/// Every entry of a deletion on this machine gets its own step, in order, and the operation ends
/// after the last.
pub proof fn law_every_entry_is_deleted(entries: Vec<FsEntryRef>, k: int, step: LocalFsStep)
    requires
        0 <= k <= entries@.len(),
        forall|i: int| 0 <= i < entries@.len() ==> #[trigger] entries@[i].path is Local,
        step_of(FsOp::Delete { entries }, k, step),
    ensures
        k < entries@.len() ==> (step matches LocalFsStep::Delete { path, is_dir }
            && EntryPath::Local(path) == entries@[k].path && is_dir == entries@[k].is_dir),
        k == entries@.len() ==> step is Done,
{
}

}
