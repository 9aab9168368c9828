//! What a pane looks like: its path bar, its rows or what stands in their place, its filter bar
//! and the field for a name.

use vstd::prelude::*;

use crate::file_actions::contains_path;
use crate::file_ops::{ContextMenuState, InlineEditKind, InlineEditState};
use crate::filters::FilterView;
use crate::helpers::{format_recent_label, recent_label};
use crate::model::{
    ConnectionState, EntryPath, FileKind, PaneSide, PathView, RecentEntry, SortSpec, TabId,
    Timestamp, UserFacingError,
};
use crate::nav::{
    breadcrumb_display_indices, breadcrumb_segments, shown_segments, trail, trail_texts,
};
use crate::navigation::{history, place};
use crate::palette_commands::{labeled, labeled_shortcut};
use crate::selection::{opens, shown_positions, views, EntryAction};
use crate::tabs::TabState;
use crate::text::{
    decimal, decimal_text, file_name, file_name_in, joined, joined3, same_text, starts_with_char,
};
use crate::workspace::{pane_focus, Config, PaneFilter, Workspace};

verus! {

/// A piece of the path that a pane shows.
#[derive(PartialEq, Eq, Debug)]
pub enum Crumb {
    Separator,
    /// Some directories are left out.
    Gap,
    /// A directory that a click leads to.
    Directory { label: String, path: String },
}

/// A piece of the path as contracts speak of it.
pub enum CrumbView {
    Separator,
    Gap,
    Directory { label: Seq<char>, path: Seq<char> },
}

impl View for Crumb {
    type V = CrumbView;

    open spec fn view(&self) -> CrumbView {
        match self {
            Crumb::Separator => CrumbView::Separator,
            Crumb::Gap => CrumbView::Gap,
            Crumb::Directory { label, path } => CrumbView::Directory { label: label@, path: path@ },
        }
    }
}

/// The piece that stands for a segment, or for a gap.
pub open spec fn crumb_of(segments: Seq<(Seq<char>, Seq<char>)>, item: Option<int>) -> CrumbView {
    match item {
        Some(i) => CrumbView::Directory { label: segments[i].0, path: segments[i].1 },
        None => CrumbView::Gap,
    }
}

/// The piece is the root, which needs no separator behind it.
pub open spec fn is_root(segments: Seq<(Seq<char>, Seq<char>)>, item: Option<int>) -> bool {
    item is Some && segments[item->0].0 == "/"@
}

/// The pieces of some segments and gaps, with separators between them but not behind the root.
pub open spec fn crumb_list(segments: Seq<(Seq<char>, Seq<char>)>, items: Seq<Option<int>>) -> Seq<
    CrumbView,
>
    decreases items.len(),
{
    if items.len() == 0 {
        Seq::empty()
    } else {
        let rest = items.drop_last();
        let front = crumb_list(segments, rest);
        if rest.len() > 0 && !is_root(segments, rest.last()) {
            front.push(CrumbView::Separator).push(crumb_of(segments, items.last()))
        } else {
            front.push(crumb_of(segments, items.last()))
        }
    }
}

/// The pieces of a path.
pub open spec fn crumbs(path: Seq<char>) -> Seq<CrumbView> {
    crumb_list(trail(path), shown_segments(trail(path).len()))
}

/// Crumbs as contracts speak of them.
pub open spec fn crumb_views(v: Seq<Crumb>) -> Seq<CrumbView> {
    v.map_values(|c: Crumb| c@)
}

/// The pieces of a path.
pub fn path_crumbs(path: &str) -> (r: Vec<Crumb>)
    ensures
        crumb_views(r@) == crumbs(path@),
{
    let segments = breadcrumb_segments(path);
    let ghost all = trail(path@);
    assert(all.len() == segments@.len());
    let items = breadcrumb_display_indices(segments.len());
    let ghost wanted = shown_segments(all.len());
    let mut out: Vec<Crumb> = Vec::new();
    let mut after_root = true;
    let mut i: usize = 0;
    assert(wanted.take(0) =~= Seq::<Option<int>>::empty());
    assert(crumb_views(out@) =~= crumb_list(all, wanted.take(0)));
    while i < items.len()
        invariant
            i <= items@.len(),
            all == trail_texts(segments@),
            all.len() == segments@.len(),
            all.len() >= 1,
            wanted == shown_segments(all.len()),
            items@.len() == wanted.len(),
            forall|k: int|
                0 <= k < items@.len() ==> {
                    &&& (items@[k] is None <==> #[trigger] wanted[k] is None)
                    &&& items@[k] is Some ==> items@[k]->0 == wanted[k]->0
                },
            crumb_views(out@) == crumb_list(all, wanted.take(i as int)),
            after_root == (i == 0 || is_root(all, wanted[i - 1])),
        decreases items@.len() - i,
    {
        let ghost before = out@;
        proof {
            assert(wanted.take(i + 1).drop_last() =~= wanted.take(i as int));
            assert(wanted.take(i + 1).last() == wanted[i as int]);
            if i > 0 {
                assert(wanted.take(i as int).last() == wanted[i - 1]);
            }
            assert(items@[i as int] is None <==> wanted[i as int] is None);
        }
        if !after_root {
            out.push(Crumb::Separator);
            assert(crumb_views(out@) =~= crumb_views(before).push(CrumbView::Separator));
        }
        let ghost middle = out@;
        match items[i] {
            None => {
                out.push(Crumb::Gap);
                after_root = false;
            },
            Some(k) => {
                assert(k < segments@.len());
                assert(all[k as int] == (segments@[k as int].0@, segments@[k as int].1@));
                after_root = same_text(segments[k].0.as_str(), "/");
                out.push(
                    Crumb::Directory {
                        label: segments[k].0.clone(),
                        path: segments[k].1.clone(),
                    },
                );
            },
        }
        assert(crumb_views(out@) =~= crumb_views(middle).push(
            crumb_of(all, wanted[i as int]),
        ));
        i += 1;
    }
    assert(wanted.take(i as int) =~= wanted);
    out
}

/// A button that a pane offers in place of its rows.
#[derive(Clone, Copy, PartialEq, Eq, Structural, Debug)]
pub enum PaneButton {
    Connect,
    Reconnect,
    RetryConnect,
    EditConnection,
    CancelConnect,
    RetryDirectory,
}

/// The label of a button.
pub open spec fn button_label(button: PaneButton) -> Seq<char> {
    match button {
        PaneButton::Connect => "Connect… (⌘⇧R)"@,
        PaneButton::Reconnect => "Reconnect (⌘⇧R)"@,
        PaneButton::RetryConnect => "Retry"@,
        PaneButton::EditConnection => "Edit Connection…"@,
        PaneButton::CancelConnect => "Cancel"@,
        PaneButton::RetryDirectory => "Retry"@,
    }
}

impl PaneButton {
    /// The label of the button.
    pub fn label(&self) -> (r: &'static str)
        ensures
            r@ == button_label(*self),
    {
        match self {
            PaneButton::Connect => "Connect… (⌘⇧R)",
            PaneButton::Reconnect => "Reconnect (⌘⇧R)",
            PaneButton::RetryConnect => "Retry",
            PaneButton::EditConnection => "Edit Connection…",
            PaneButton::CancelConnect => "Cancel",
            PaneButton::RetryDirectory => "Retry",
        }
    }
}

/// What stands in place of the rows of a pane.
#[derive(PartialEq, Eq, Debug)]
pub struct Placeholder {
    pub message: String,
    pub buttons: Vec<PaneButton>,
    /// The recent connections are listed too.
    pub with_recents: bool,
}

/// What stands in place of the rows, as contracts speak of it.
#[verifier::ext_equal]
pub struct PlaceholderView {
    pub message: Seq<char>,
    pub buttons: Seq<PaneButton>,
    pub with_recents: bool,
}

impl View for Placeholder {
    type V = PlaceholderView;

    open spec fn view(&self) -> PlaceholderView {
        PlaceholderView {
            message: self.message@,
            buttons: self.buttons@,
            with_recents: self.with_recents,
        }
    }
}

/// An error as a pane tells it.
pub open spec fn told(error: UserFacingError) -> Seq<char> {
    error.title@ + " — "@ + error.message@
}

/// What stands in place of the rows of a pane: on the remote side the state of the connection,
/// unless it is up; and in either an error.
pub open spec fn placeholder(tab: Option<TabState>, side: PaneSide) -> Option<PlaceholderView> {
    match (tab, side) {
        (None, _) => None,
        (Some(tab), PaneSide::Local) => match tab.local.error {
            Some(error) => Some(
                PlaceholderView {
                    message: told(error),
                    buttons: Seq::empty(),
                    with_recents: false,
                },
            ),
            None => None,
        },
        (Some(tab), PaneSide::Remote) => match tab.connection {
            ConnectionState::Empty => Some(
                PlaceholderView {
                    message: "Not connected"@,
                    buttons: seq![PaneButton::Connect],
                    with_recents: true,
                },
            ),
            ConnectionState::Connecting { .. } => Some(connecting(tab)),
            ConnectionState::Reconnecting { .. } => Some(connecting(tab)),
            ConnectionState::AwaitingHostKey { .. } => Some(
                PlaceholderView {
                    message: "Waiting for host key · "@ + tab.title@,
                    buttons: seq![PaneButton::CancelConnect],
                    with_recents: false,
                },
            ),
            ConnectionState::AwaitingCredentials { .. } => Some(
                PlaceholderView {
                    message: "Waiting for credentials…"@,
                    buttons: Seq::empty(),
                    with_recents: false,
                },
            ),
            ConnectionState::Disconnected { .. } => Some(
                PlaceholderView {
                    message: "Disconnected"@,
                    buttons: seq![PaneButton::Reconnect, PaneButton::EditConnection],
                    with_recents: true,
                },
            ),
            ConnectionState::Failed { error } => Some(
                PlaceholderView {
                    message: told(error),
                    buttons: seq![PaneButton::RetryConnect, PaneButton::EditConnection],
                    with_recents: false,
                },
            ),
            ConnectionState::Connected { .. } => match tab.remote.error {
                Some(error) => Some(
                    PlaceholderView {
                        message: told(error),
                        buttons: seq![PaneButton::RetryDirectory],
                        with_recents: false,
                    },
                ),
                None => None,
            },
        },
    }
}

/// What the remote pane says while a connection is made.
pub open spec fn connecting(tab: TabState) -> PlaceholderView {
    PlaceholderView {
        message: "Connecting to "@ + tab.title@ + "…"@,
        buttons: seq![PaneButton::CancelConnect],
        with_recents: false,
    }
}

fn buttons(first: Option<PaneButton>, second: Option<PaneButton>) -> (r: Vec<PaneButton>)
    ensures
        r@ == match (first, second) {
            (Some(a), Some(b)) => seq![a, b],
            (Some(a), None) => seq![a],
            (None, Some(b)) => seq![b],
            (None, None) => Seq::empty(),
        },
{
    let mut out: Vec<PaneButton> = Vec::new();
    if let Some(a) = first {
        out.push(a);
    }
    if let Some(b) = second {
        out.push(b);
    }
    assert(out@ =~= match (first, second) {
        (Some(a), Some(b)) => seq![a, b],
        (Some(a), None) => seq![a],
        (None, Some(b)) => seq![b],
        (None, None) => Seq::empty(),
    });
    out
}

fn error_text(error: &UserFacingError) -> (r: String)
    ensures
        r@ == told(*error),
{
    joined3(error.title.as_str(), " — ", error.message.as_str())
}

fn placeholder_of(tab: &TabState, side: PaneSide) -> (r: Option<Placeholder>)
    ensures
        r is Some <==> placeholder(Some(*tab), side) is Some,
        r is Some ==> r->0@ == placeholder(Some(*tab), side)->0,
{
    if side == PaneSide::Local {
        return match &tab.local.error {
            Some(error) => Some(
                Placeholder {
                    message: error_text(error),
                    buttons: buttons(None, None),
                    with_recents: false,
                },
            ),
            None => None,
        };
    }
    match &tab.connection {
        ConnectionState::Empty => Some(
            Placeholder {
                message: "Not connected".to_string(),
                buttons: buttons(Some(PaneButton::Connect), None),
                with_recents: true,
            },
        ),
        ConnectionState::Connecting { .. } | ConnectionState::Reconnecting { .. } => Some(
            Placeholder {
                message: joined3("Connecting to ", tab.title.as_str(), "…"),
                buttons: buttons(Some(PaneButton::CancelConnect), None),
                with_recents: false,
            },
        ),
        ConnectionState::AwaitingHostKey { .. } => Some(
            Placeholder {
                message: joined("Waiting for host key · ", tab.title.as_str()),
                buttons: buttons(Some(PaneButton::CancelConnect), None),
                with_recents: false,
            },
        ),
        ConnectionState::AwaitingCredentials { .. } => Some(
            Placeholder {
                message: "Waiting for credentials…".to_string(),
                buttons: buttons(None, None),
                with_recents: false,
            },
        ),
        ConnectionState::Disconnected { .. } => Some(
            Placeholder {
                message: "Disconnected".to_string(),
                buttons: buttons(Some(PaneButton::Reconnect), Some(PaneButton::EditConnection)),
                with_recents: true,
            },
        ),
        ConnectionState::Failed { error } => Some(
            Placeholder {
                message: error_text(error),
                buttons: buttons(Some(PaneButton::RetryConnect), Some(PaneButton::EditConnection)),
                with_recents: false,
            },
        ),
        ConnectionState::Connected { .. } => match &tab.remote.error {
            Some(error) => Some(
                Placeholder {
                    message: error_text(error),
                    buttons: buttons(Some(PaneButton::RetryDirectory), None),
                    with_recents: false,
                },
            ),
            None => None,
        },
    }
}

/// What fills a pane.
#[derive(PartialEq, Eq, Debug)]
pub enum PaneContent {
    Instead(Placeholder),
    Loading,
    NoMatches,
    EmptyDirectory,
    /// So many rows.
    Rows(usize),
}

/// What fills a pane.
pub open spec fn pane_content(w: Workspace, side: PaneSide, config: Config, content: PaneContent)
    -> bool {
    let count = w.shown(side, config).len();
    match placeholder(w.tabs.active(), side) {
        Some(instead) => content matches PaneContent::Instead(held) && held@ == instead,
        None => if count > 0 {
            content matches PaneContent::Rows(n) && n == count
        } else if remote_refreshing(w, side) {
            content is Loading
        } else if w.query(side).len() > 0 {
            content is NoMatches
        } else {
            content is EmptyDirectory
        },
    }
}

/// The remote listing is being read again.
pub open spec fn remote_refreshing(w: Workspace, side: PaneSide) -> bool {
    side is Remote && w.tabs.active() is Some && w.tabs.active()->0.remote.is_refreshing
}

/// How many of the paths are on a side.
pub open spec fn count_on(paths: Seq<PathView>, side: PaneSide) -> nat
    decreases paths.len(),
{
    if paths.len() == 0 {
        0
    } else {
        count_on(paths.drop_last(), side) + if paths.last().side == side {
            1nat
        } else {
            0
        }
    }
}

/// How many of the paths are on a side.
pub fn count_paths(paths: &Vec<EntryPath>, side: PaneSide) -> (r: usize)
    ensures
        r == count_on(views(paths@), side),
{
    let ghost all = views(paths@);
    let mut count: usize = 0;
    let mut i: usize = 0;
    assert(all.take(0) =~= Seq::<PathView>::empty());
    while i < paths.len()
        invariant
            i <= paths@.len(),
            all == views(paths@),
            count <= i,
            count == count_on(all.take(i as int), side),
        decreases paths@.len() - i,
    {
        assert(all.take(i + 1).drop_last() =~= all.take(i as int));
        assert(all.take(i + 1).last() == paths@[i as int]@);
        if paths[i].side() == side {
            count += 1;
        }
        i += 1;
    }
    assert(all.take(i as int) =~= all);
    count
}

/// The filter bar of a pane.
#[derive(PartialEq, Eq, Debug)]
pub struct FilterBar {
    /// The field has the keyboard; otherwise the query is just shown.
    pub editing: bool,
    pub text: String,
    pub matched: usize,
    pub total: usize,
}

/// The field for a name in a pane.
#[derive(PartialEq, Eq, Debug)]
pub struct NameField {
    pub label: &'static str,
    pub input: String,
    pub error: Option<String>,
}

/// A recent connection in the remote pane.
#[derive(PartialEq, Eq, Debug)]
pub struct RecentRow {
    pub id: u64,
    pub label: String,
}

/// A pane.
#[derive(PartialEq, Eq, Debug)]
pub struct PaneView {
    pub can_back: bool,
    pub can_forward: bool,
    /// The path, or the name of the pane where it is nowhere.
    pub crumbs: Option<Vec<Crumb>>,
    pub pane_name: &'static str,
    /// A listing that is shown is being read again.
    pub refreshing: bool,
    pub hidden_tooltip: String,
    /// The button that sends the selection to the other side can be used.
    pub can_transfer: bool,
    pub sort: Option<SortSpec>,
    pub content: PaneContent,
    pub recents: Vec<RecentRow>,
    pub filter: Option<FilterBar>,
    pub name_field: Option<NameField>,
}

/// The recent connections as the pane lists them.
pub open spec fn recent_rows_show(rows: Seq<RecentRow>, recents: Seq<RecentEntry>) -> bool {
    &&& rows.len() == recents.len()
    &&& forall|i: int|
        0 <= i < rows.len() ==> (#[trigger] rows[i]).id == recents[i].id && rows[i].label@
            == recent_label(recents[i])
}

/// The name field of a pane, while a name is edited in it.
pub open spec fn name_field_shows(field: Option<NameField>, edit: Option<InlineEditState>, side: PaneSide)
    -> bool {
    match edit {
        Some(edit) if edit.side == side => {
            &&& field is Some
            &&& field->0.label@ == match edit.kind {
                InlineEditKind::Rename { .. } => "Rename"@,
                InlineEditKind::NewFolder { .. } => "New Folder"@,
            }
            &&& field->0.input == edit.input
            &&& field->0.error == edit.error
        },
        _ => field is None,
    }
}

/// The filter bar of a pane, while it is shown.
pub open spec fn filter_bar_shows(
    bar: Option<FilterBar>,
    filter: FilterView,
    matched: nat,
    total: nat,
) -> bool {
    if filter.query.len() > 0 || filter.explicit_focus {
        &&& bar is Some
        &&& bar->0.editing == filter.explicit_focus
        &&& bar->0.text@ == if filter.explicit_focus {
            filter.input
        } else {
            filter.query
        }
        &&& bar->0.matched == matched
        &&& bar->0.total == total
    } else {
        bar is None
    }
}

/// What a pane shows.
pub open spec fn pane_shows(
    w: Workspace,
    side: PaneSide,
    config: Config,
    recents: Seq<RecentEntry>,
    view: PaneView,
) -> bool {
    let tab = w.tabs.active();
    let at = match tab {
        Some(tab) => place(tab, side),
        None => None,
    };
    &&& view.can_back == (tab is Some && history(tab->0, side).past().len() > 0)
    &&& view.can_forward == (tab is Some && history(tab->0, side).ahead().len() > 0)
    &&& view.crumbs is Some <==> at is Some
    &&& view.crumbs is Some ==> crumb_views(view.crumbs->0@) == crumbs(at->0)
    &&& view.pane_name@ == match side {
        PaneSide::Local => "Local"@,
        PaneSide::Remote => "Remote"@,
    }
    &&& view.refreshing == (remote_refreshing(w, side) && w.shown(side, config).len() > 0)
    &&& view.hidden_tooltip@ == labeled(
        if config.show_hidden_files {
            "Hide Hidden Files"@
        } else {
            "Show Hidden Files"@
        },
        "ToggleHiddenFiles"@,
    )
    &&& view.can_transfer == (tab is Some && tab->0.connection is Connected && count_on(
        views(tab->0.selected_paths@),
        side,
    ) > 0)
    &&& view.sort == match tab {
        Some(tab) => Some(tab.sort),
        None => None,
    }
    &&& pane_content(w, side, config, view.content)
    &&& recent_rows_show(
        view.recents@,
        if side is Remote {
            recents
        } else {
            Seq::empty()
        },
    )
    &&& filter_bar_shows(
        view.filter,
        w.filter_of(side),
        w.shown(side, config).len(),
        shown_positions(w.entries(side), config.show_hidden_files, Seq::empty()).len(),
    )
    &&& name_field_shows(view.name_field, w.inline_edit, side)
}

fn recent_rows(recents: &Vec<RecentEntry>, side: PaneSide) -> (r: Vec<RecentRow>)
    ensures
        recent_rows_show(
            r@,
            if side is Remote {
                recents@
            } else {
                Seq::empty()
            },
        ),
{
    let mut out: Vec<RecentRow> = Vec::new();
    if side == PaneSide::Local {
        return out;
    }
    let mut i: usize = 0;
    while i < recents.len()
        invariant
            i <= recents@.len(),
            out@.len() == i,
            forall|k: int|
                0 <= k < i ==> (#[trigger] out@[k]).id == recents@[k].id && out@[k].label@
                    == recent_label(recents@[k]),
        decreases recents@.len() - i,
    {
        out.push(RecentRow { id: recents[i].id, label: format_recent_label(&recents[i]) });
        i += 1;
    }
    out
}

fn name_field(edit: &Option<InlineEditState>, side: PaneSide) -> (r: Option<NameField>)
    ensures
        name_field_shows(r, *edit, side),
{
    match edit {
        Some(edit) => if edit.side == side {
            Some(
                NameField {
                    label: match &edit.kind {
                        InlineEditKind::Rename { .. } => "Rename",
                        InlineEditKind::NewFolder { .. } => "New Folder",
                    },
                    input: edit.input.clone(),
                    error: edit.error.clone(),
                },
            )
        } else {
            None
        },
        None => None,
    }
}

fn filter_bar(filter: &PaneFilter, matched: usize, total: usize) -> (r: Option<FilterBar>)
    ensures
        filter_bar_shows(r, filter@, matched as nat, total as nat),
{
    if !filter.is_active() {
        return None;
    }
    Some(
        FilterBar {
            editing: filter.explicit_focus,
            text: if filter.explicit_focus {
                filter.input.clone()
            } else {
                filter.query.clone()
            },
            matched,
            total,
        },
    )
}

impl FilterBar {
    /// How many entries match, of how many.
    pub fn count_label(&self) -> (r: String)
        ensures
            r@ == "· "@ + decimal(self.matched as nat) + "/"@ + decimal(self.total as nat),
    {
        let mut out = joined("· ", decimal_text(self.matched as u64).as_str());
        out.append("/");
        out.append(decimal_text(self.total as u64).as_str());
        out
    }
}

/// A row of a pane.
#[derive(PartialEq, Eq, Debug)]
pub struct FileRow {
    pub name: String,
    pub kind: FileKind,
    pub is_hidden: bool,
    pub selected: bool,
    pub size: Option<u64>,
    pub modified_at: Option<Timestamp>,
}

/// The row of an entry.
pub open spec fn row_shows(
    row: FileRow,
    entry: crate::model::FileEntry,
    side: PaneSide,
    selected: Seq<PathView>,
) -> bool {
    &&& row.name == entry.name
    &&& row.kind == entry.kind
    &&& row.is_hidden == (entry.name@.len() > 0 && entry.name@[0] == '.')
    &&& row.selected == selected.contains(PathView { side, text: entry.path@ })
    &&& row.size == entry.size
    &&& row.modified_at == entry.modified_at
}

fn row_of(entry: &crate::model::FileEntry, side: PaneSide, selected: &Vec<EntryPath>) -> (r: FileRow)
    ensures
        row_shows(r, *entry, side, views(selected@)),
{
    let path = EntryPath::on(side, entry.path.clone());
    FileRow {
        name: entry.name.clone(),
        kind: entry.kind,
        is_hidden: starts_with_char(entry.name.as_str(), '.'),
        selected: contains_path(selected, &path),
        size: entry.size,
        modified_at: entry.modified_at,
    }
}

/// What a key typed in a pane is for.
#[derive(Clone, Copy, PartialEq, Eq, Structural, Debug)]
pub enum PaneKeyTarget {
    NameField,
    Filter,
}

/// Where something that was dragged is sent.
#[derive(PartialEq, Eq, Debug)]
pub enum DropAction {
    Nothing,
    Upload(String),
    Download(String),
}

/// What dropping an entry on a pane does: what comes from the other side is copied.
pub fn dropped_on(side: PaneSide, path: &EntryPath) -> (r: DropAction)
    ensures
        match (side, *path) {
            (PaneSide::Remote, EntryPath::Local(local)) => r == DropAction::Upload(local),
            (PaneSide::Local, EntryPath::Remote(remote)) => r == DropAction::Download(remote),
            _ => r is Nothing,
        },
{
    match (side, path) {
        (PaneSide::Remote, EntryPath::Local(local)) => DropAction::Upload(local.clone()),
        (PaneSide::Local, EntryPath::Remote(remote)) => DropAction::Download(remote.clone()),
        _ => DropAction::Nothing,
    }
}

/// What is shown of an entry while it is dragged.
pub fn drag_label(path: &EntryPath) -> (r: String)
    ensures
        r@ == match file_name(path@.text) {
            Some(name) => name,
            None => "file"@,
        },
{
    match file_name_in(path.as_str()) {
        Some(name) => name,
        None => "file".to_string(),
    }
}

impl Workspace {
    fn content_of(&self, side: PaneSide, config: &Config) -> (r: PaneContent)
        ensures
            pane_content(*self, side, *config, r),
    {
        let count: usize = self.entry_count(side, config);
        let refreshing = match self.tabs.active_position() {
            Some(i) => {
                if let Some(instead) = placeholder_of(&self.tabs.tabs[i], side) {
                    return PaneContent::Instead(instead);
                }
                side == PaneSide::Remote && self.tabs.tabs[i].remote.is_refreshing
            },
            None => false,
        };
        let filtered = match side {
            PaneSide::Local => !self.local_filter.query.as_str().is_empty(),
            PaneSide::Remote => !self.remote_filter.query.as_str().is_empty(),
        };
        if count > 0 {
            PaneContent::Rows(count)
        } else if refreshing {
            PaneContent::Loading
        } else if filtered {
            PaneContent::NoMatches
        } else {
            PaneContent::EmptyDirectory
        }
    }

    /// What a pane shows.
    pub fn pane_view(&self, side: PaneSide, config: &Config, recents: &Vec<RecentEntry>) -> (r:
        PaneView)
        ensures
            pane_shows(*self, side, *config, recents@, r),
    {
        let count: usize = self.entry_count(side, config);
        let total: usize = self.count_after_hidden(side, config);
        let crumbs = match self.current_directory(side) {
            Some(path) => Some(path_crumbs(path.as_str())),
            None => None,
        };
        let (refreshing, can_transfer, sort) = match self.tabs.active_position() {
            Some(i) => {
                let tab = &self.tabs.tabs[i];
                (
                    side == PaneSide::Remote && tab.remote.is_refreshing && count > 0,
                    tab.connection.is_connected() && count_paths(&tab.selected_paths, side) > 0,
                    Some(tab.sort),
                )
            },
            None => (false, false, None),
        };
        let hidden_tooltip = if config.show_hidden_files {
            labeled_shortcut("Hide Hidden Files", "ToggleHiddenFiles")
        } else {
            labeled_shortcut("Show Hidden Files", "ToggleHiddenFiles")
        };
        let filter = match side {
            PaneSide::Local => filter_bar(&self.local_filter, count, total),
            PaneSide::Remote => filter_bar(&self.remote_filter, count, total),
        };
        PaneView {
            can_back: self.pane_can_navigate_back(side),
            can_forward: self.pane_can_navigate_forward(side),
            crumbs,
            pane_name: match side {
                PaneSide::Local => "Local",
                PaneSide::Remote => "Remote",
            },
            refreshing,
            hidden_tooltip,
            can_transfer,
            sort,
            content: self.content_of(side, config),
            recents: recent_rows(recents, side),
            filter,
            name_field: name_field(&self.inline_edit, side),
        }
    }

    /// The rows of a pane.
    pub fn pane_rows(&self, side: PaneSide, config: &Config) -> (r: Vec<FileRow>)
        ensures
            ({
                let at = shown_positions(
                    self.entries(side),
                    config.show_hidden_files,
                    self.query(side),
                );
                &&& r@.len() == at.len()
                &&& forall|k: int|
                    0 <= k < r@.len() ==> row_shows(
                        #[trigger] r@[k],
                        self.entries(side)[at[k]],
                        side,
                        self.selected(),
                    )
            }),
    {
        let at = self.visible_indices(side, config);
        let ghost wanted = shown_positions(
            self.entries(side),
            config.show_hidden_files,
            self.query(side),
        );
        assert(at@.len() == wanted.len());
        let mut out: Vec<FileRow> = Vec::new();
        let i: usize = match self.tabs.active_position() {
            Some(i) => i,
            None => {
                proof {
                    if at@.len() > 0 {
                        assert(at@[0] < self.entries(side).len());
                    }
                }
                return out;
            },
        };
        let mut k: usize = 0;
        while k < at.len()
            invariant
                k <= at@.len(),
                out@.len() == k,
                i < self.tabs.tabs@.len(),
                self.tabs.active() == Some(self.tabs.tabs@[i as int]),
                wanted == shown_positions(
                    self.entries(side),
                    config.show_hidden_files,
                    self.query(side),
                ),
                at@.len() == wanted.len(),
                forall|j: int|
                    0 <= j < at@.len() ==> (#[trigger] at@[j]) < self.entries(side).len() && at@[j]
                        == wanted[j],
                forall|j: int|
                    0 <= j < k ==> row_shows(
                        #[trigger] out@[j],
                        self.entries(side)[wanted[j]],
                        side,
                        self.selected(),
                    ),
            decreases at@.len() - k,
        {
            let p: usize = at[k];
            assert(at@[k as int] < self.entries(side).len());
            let tab = &self.tabs.tabs[i];
            let row = match side {
                PaneSide::Local => row_of(&tab.local.entries[p], side, &tab.selected_paths),
                PaneSide::Remote => row_of(&tab.remote.entries[p], side, &tab.selected_paths),
            };
            out.push(row);
            k += 1;
        }
        out
    }

    /// A click on a row of a pane: the first selects, the second opens, and the other button
    /// opens the context menu. Gives what opening leads to.
    pub fn on_row_clicked(
        &mut self,
        side: PaneSide,
        index: usize,
        right_click: bool,
        click_count: usize,
        config: &Config,
    ) -> (r: EntryAction)
        requires
            old(self).wf(),
        ensures
            final(self).wf(),
            row_clicked(*old(self), *final(self), side, index, right_click, click_count, *config, r),
    {
        self.focus_pane(side);
        if right_click {
            self.open_context_menu(side, Some(index), config);
            EntryAction::Nothing
        } else if click_count >= 2 {
            self.open_entry_at(side, index, config)
        } else {
            self.select_index(side, index, config);
            EntryAction::Nothing
        }
    }

    /// A button of a pane was used: the pane is the one that what follows is about.
    pub fn turn_to(&mut self, side: PaneSide)
        ensures
            *final(self) == (Workspace { focused_side: side, ..*old(self) }),
    {
        self.focused_side = side;
    }

    /// A click with the other button beside the rows of a pane: its context menu opens, on no
    /// entry.
    pub fn on_blank_right_clicked(&mut self, side: PaneSide, config: &Config)
        requires
            old(self).wf(),
        ensures
            final(self).wf(),
            *final(self) == (Workspace {
                focused_side: side,
                focus: pane_focus(side),
                context_menu: Some(ContextMenuState { side, entry_index: None }),
                ..*old(self)
            }),
    {
        self.focus_pane(side);
        self.open_context_menu(side, None, config);
    }

    /// What a key typed in a pane is for: the field for a name, while it is open there.
    pub fn pane_key_target(&self, side: PaneSide) -> (r: PaneKeyTarget)
        ensures
            r == match self.inline_edit {
                Some(edit) if edit.side == side => PaneKeyTarget::NameField,
                _ => PaneKeyTarget::Filter,
            },
    {
        match &self.inline_edit {
            Some(edit) => if edit.side == side {
                PaneKeyTarget::NameField
            } else {
                PaneKeyTarget::Filter
            },
            None => PaneKeyTarget::Filter,
        }
    }

    /// The user wants a remote directory read again that could not be: gives the tab and the
    /// directory. Where the pane is nowhere, it just becomes the one that what follows is about.
    pub fn retry_directory(&mut self) -> (r: Option<(TabId, String)>)
        ensures
            match old(self).tabs.active() {
                None => r is None && *final(self) == *old(self),
                Some(tab) => match tab.remote.path {
                    Some(path) => r == Some((tab.id, path)) && *final(self) == *old(self),
                    None => r is None && *final(self) == (Workspace {
                        focused_side: PaneSide::Remote,
                        ..*old(self)
                    }),
                },
            },
    {
        let i: usize = match self.tabs.active_position() {
            Some(i) => i,
            None => return None,
        };
        match &self.tabs.tabs[i].remote.path {
            Some(path) => Some((self.tabs.tabs[i].id, path.clone())),
            None => {
                self.focused_side = PaneSide::Remote;
                None
            },
        }
    }

    /// How many entries of the focused pane are selected.
    pub fn focused_selection_count(&self) -> (r: usize)
        ensures
            r == match self.tabs.active() {
                Some(tab) => count_on(views(tab.selected_paths@), self.focused_side),
                None => 0,
            },
    {
        match self.tabs.active_position() {
            Some(i) => count_paths(&self.tabs.tabs[i].selected_paths, self.focused_side),
            None => 0,
        }
    }
}

/// The window after a click on a row, and what opening leads to.
pub open spec fn row_clicked(
    before: Workspace,
    after: Workspace,
    side: PaneSide,
    index: usize,
    right_click: bool,
    click_count: usize,
    config: Config,
    action: EntryAction,
) -> bool {
    let focused = Workspace { focused_side: side, focus: pane_focus(side), ..before };
    let shown = before.shown(side, config);
    let at = shown_positions(before.entries(side), config.show_hidden_files, before.query(side));
    if !right_click && click_count >= 2 {
        &&& after == focused
        &&& action == if index < at.len() {
            opens(before.entries(side)[at[index as int]], side)
        } else {
            EntryAction::Nothing
        }
    } else {
        let base = if right_click {
            Workspace {
                context_menu: Some(ContextMenuState { side, entry_index: Some(index) }),
                ..focused
            }
        } else {
            focused
        };
        &&& action is Nothing
        &&& if index < shown.len() {
            after.selects(base, seq![shown[index as int]], Some(shown[index as int]))
        } else {
            after == base
        }
    }
}

/// A pane never shows rows and something in their place: where the connection is not up the
/// remote pane says so, whatever its listing holds.
pub proof fn law_unconnected_pane_has_no_rows(
    w: Workspace,
    config: Config,
    content: PaneContent,
)
    requires
        pane_content(w, PaneSide::Remote, config, content),
        w.tabs.active() is Some,
        !(w.tabs.active()->0.connection is Connected),
    ensures
        content is Instead,
{
}

/// The crumbs of a path start at the root, whatever the path.
pub proof fn law_first_crumb_is_the_root(path: Seq<char>)
    ensures
        crumbs(path).len() > 0,
        crumbs(path)[0] == (CrumbView::Directory { label: seq!['/'], path: seq!['/'] }),
{
    let segments = trail(path);
    let items = shown_segments(segments.len());
    lemma_crumbs_start(segments, items);
}

proof fn lemma_crumbs_start(segments: Seq<(Seq<char>, Seq<char>)>, items: Seq<Option<int>>)
    requires
        items.len() > 0,
    ensures
        crumb_list(segments, items).len() > 0,
        crumb_list(segments, items)[0] == crumb_of(segments, items[0]),
    decreases items.len(),
{
    if items.len() > 1 {
        lemma_crumbs_start(segments, items.drop_last());
    } else {
        assert(crumb_list(segments, items.drop_last()).len() == 0);
    }
}

}
