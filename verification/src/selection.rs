//! What a pane shows and what is selected in it.

use vstd::prelude::*;

use crate::lists::{clamped, clamped_index, lemma_filter_holds, lemma_filter_take};
use crate::model::{EntryPath, FileEntry, FileKind, PaneSide, PathView, Timestamp};
use crate::tabs::{lemma_store_with_tab, tab_changed, TabState, TabStore};
use crate::text::{contains_text, has_text, lowercase, starts_with_char, to_lowercase};
use crate::workspace::{Config, Workspace};

verus! {

/// How far a page moves the selection.
pub const PAGE_SIZE: usize = 10;

/// An entry is listed: hidden ones only where they are wanted, and only those whose name holds
/// the query, in whatever case.
pub open spec fn is_shown(entry: FileEntry, show_hidden: bool, query: Seq<char>) -> bool {
    &&& show_hidden || !(entry.name@.len() > 0 && entry.name@[0] == '.')
    &&& query.len() == 0 || has_text(lowercase(entry.name@), lowercase(query))
}

/// The entry at a position is listed.
pub open spec fn shown_at(
    entries: Seq<FileEntry>,
    show_hidden: bool,
    query: Seq<char>,
) -> spec_fn(int) -> bool {
    |i: int| 0 <= i < entries.len() && is_shown(entries[i], show_hidden, query)
}

/// The numbers from zero up.
pub open spec fn positions(count: nat) -> Seq<int> {
    Seq::new(count, |i: int| i)
}

/// The positions of the listed entries, in order.
pub open spec fn shown_positions(
    entries: Seq<FileEntry>,
    show_hidden: bool,
    query: Seq<char>,
) -> Seq<int> {
    positions(entries.len()).filter(shown_at(entries, show_hidden, query))
}

/// The paths of the listed entries, in order.
pub open spec fn shown_paths(
    entries: Seq<FileEntry>,
    side: PaneSide,
    show_hidden: bool,
    query: Seq<char>,
) -> Seq<PathView> {
    shown_positions(entries, show_hidden, query).map_values(path_at(entries, side))
}

/// The path of the entry at a position.
pub open spec fn path_at(entries: Seq<FileEntry>, side: PaneSide) -> spec_fn(int) -> PathView {
    |i: int| PathView { side, text: entries[i].path@ }
}

/// Every listed position is one of an entry that is to be listed.
pub proof fn lemma_shown_positions(entries: Seq<FileEntry>, show_hidden: bool, query: Seq<char>)
    ensures
        forall|k: int|
            0 <= k < shown_positions(entries, show_hidden, query).len() ==> {
                let i = #[trigger] shown_positions(entries, show_hidden, query)[k];
                0 <= i < entries.len() && is_shown(entries[i], show_hidden, query)
            },
{
    let all = positions(entries.len());
    let keep = shown_at(entries, show_hidden, query);
    lemma_filter_holds(all, keep);
    assert forall|k: int|
        0 <= k < shown_positions(entries, show_hidden, query).len() implies {
        let i = #[trigger] shown_positions(entries, show_hidden, query)[k];
        0 <= i < entries.len() && is_shown(entries[i], show_hidden, query)
    } by {
        let i = shown_positions(entries, show_hidden, query)[k];
        assert(all.filter(keep).contains(i));
    }
}

/// An entry is listed exactly where the settings and the query ask for it.
pub proof fn law_shown_entries(
    entries: Seq<FileEntry>,
    side: PaneSide,
    show_hidden: bool,
    query: Seq<char>,
    i: int,
)
    requires
        0 <= i < entries.len(),
    ensures
        is_shown(entries[i], show_hidden, query) <==> shown_positions(
            entries,
            show_hidden,
            query,
        ).contains(i),
        is_shown(entries[i], show_hidden, query) ==> shown_paths(
            entries,
            side,
            show_hidden,
            query,
        ).contains(PathView { side, text: entries[i].path@ }),
{
    let all = positions(entries.len());
    lemma_filter_holds(all, shown_at(entries, show_hidden, query));
    assert(all[i] == i);
    assert(all.contains(i));
    let shown = shown_positions(entries, show_hidden, query);
    if is_shown(entries[i], show_hidden, query) {
        assert(shown.contains(i));
        let k = choose|k: int| 0 <= k < shown.len() && shown[k] == i;
        assert(shown_paths(entries, side, show_hidden, query)[k] == (PathView {
            side,
            text: entries[i].path@,
        }));
    }
}

/// With hidden entries wanted and no query, everything is listed.
pub proof fn law_everything_is_shown(entries: Seq<FileEntry>, i: int)
    requires
        0 <= i < entries.len(),
    ensures
        shown_positions(entries, true, Seq::empty()).contains(i),
{
    law_shown_entries(entries, PaneSide::Local, true, Seq::empty(), i);
}

/// The positions of the entries that a list shows.
pub fn visible_indices(entries: &Vec<FileEntry>, show_hidden: bool, query: &str) -> (r: Vec<usize>)
    ensures
        r@.map_values(|i: usize| i as int) == shown_positions(entries@, show_hidden, query@),
{
    let needle = to_lowercase(query);
    let any = query.is_empty();
    let count: usize = entries.len();
    let ghost all = positions(entries@.len());
    let ghost keep = shown_at(entries@, show_hidden, query@);
    let mut out: Vec<usize> = Vec::new();
    let mut i: usize = 0;
    assert(all.take(0).filter(keep) =~= Seq::<int>::empty()) by {
        reveal(Seq::filter);
    }
    assert(out@.map_values(|i: usize| i as int) =~= Seq::<int>::empty());
    while i < count
        invariant
            i <= count,
            count == entries@.len(),
            any == (query@.len() == 0),
            needle@ == lowercase(query@),
            all == positions(entries@.len()),
            keep == shown_at(entries@, show_hidden, query@),
            out@.map_values(|i: usize| i as int) == all.take(i as int).filter(keep),
        decreases count - i,
    {
        proof {
            lemma_filter_take(all, keep, i as int);
        }
        let ghost before = out@;
        let name = entries[i].name.as_str();
        if (show_hidden || !starts_with_char(name, '.')) && (any || contains_text(
            to_lowercase(name).as_str(),
            needle.as_str(),
        )) {
            out.push(i);
            assert(out@.map_values(|i: usize| i as int) =~= before.map_values(
                |i: usize| i as int,
            ).push(i as int));
        }
        i += 1;
    }
    assert(all.take(i as int) =~= all);
    out
}

/// The first position of a path; the length where it is not there.
pub open spec fn position_of(paths: Seq<PathView>, path: PathView) -> int
    decreases paths.len(),
{
    if paths.len() == 0 || paths[0] == path {
        0
    } else {
        1 + position_of(paths.drop_first(), path)
    }
}

/// The position of a path, where it is there.
pub open spec fn found_at(paths: Seq<PathView>, path: PathView) -> Option<int> {
    if position_of(paths, path) < paths.len() {
        Some(position_of(paths, path))
    } else {
        None
    }
}

/// A path that was found stands where it was found, and nowhere before.
pub proof fn lemma_position_of(paths: Seq<PathView>, path: PathView)
    ensures
        0 <= position_of(paths, path) <= paths.len(),
        position_of(paths, path) < paths.len() ==> paths[position_of(paths, path)] == path,
        forall|k: int| 0 <= k < position_of(paths, path) ==> #[trigger] paths[k] != path,
    decreases paths.len(),
{
    if paths.len() > 0 && paths[0] != path {
        lemma_position_of(paths.drop_first(), path);
        assert forall|k: int| 0 <= k < position_of(paths, path) implies #[trigger] paths[k]
            != path by {
            if k > 0 {
                assert(paths.drop_first()[k - 1] == paths[k]);
            }
        }
    }
}

proof fn lemma_position_is(paths: Seq<PathView>, path: PathView, i: int)
    requires
        0 <= i <= paths.len(),
        i < paths.len() ==> paths[i] == path,
        forall|k: int| 0 <= k < i ==> #[trigger] paths[k] != path,
    ensures
        position_of(paths, path) == i,
{
    lemma_position_of(paths, path);
    let found = position_of(paths, path);
    if found < i {
        assert(paths[found] != path);
    } else if i < found {
        assert(paths[i] != path);
    }
}

/// The paths as contracts speak of them.
pub open spec fn views(paths: Seq<EntryPath>) -> Seq<PathView> {
    paths.map_values(|p: EntryPath| p@)
}

/// Where the selected paths stand among the shown ones; those that are not shown are left out.
pub open spec fn selected_positions(shown: Seq<PathView>, selected: Seq<PathView>) -> Seq<int>
    decreases selected.len(),
{
    if selected.len() == 0 {
        Seq::empty()
    } else {
        let front = selected_positions(shown, selected.drop_last());
        match found_at(shown, selected.last()) {
            Some(i) => front.push(i),
            None => front,
        }
    }
}

/// The least of some numbers.
pub open spec fn least(s: Seq<int>) -> int
    decreases s.len(),
{
    if s.len() <= 1 {
        s[0]
    } else if s.last() < least(s.drop_last()) {
        s.last()
    } else {
        least(s.drop_last())
    }
}

/// The greatest of some numbers.
pub open spec fn greatest(s: Seq<int>) -> int
    decreases s.len(),
{
    if s.len() <= 1 {
        s[0]
    } else if s.last() > greatest(s.drop_last()) {
        s.last()
    } else {
        greatest(s.drop_last())
    }
}

/// The end of the selection that moves: the one away from where the selection began.
pub open spec fn moving_end(
    shown: Seq<PathView>,
    selected: Seq<PathView>,
    anchor: Option<PathView>,
) -> Option<int> {
    let at = selected_positions(shown, selected);
    if at.len() == 0 {
        None
    } else {
        let lo = least(at);
        let hi = greatest(at);
        let began = match anchor {
            Some(path) => found_at(shown, path),
            None => None,
        };
        Some(
            if began == Some(lo) {
                hi
            } else if began == Some(hi) {
                lo
            } else {
                hi
            },
        )
    }
}

/// The paths between two positions, both of them with it.
pub open spec fn between(shown: Seq<PathView>, a: int, b: int) -> Seq<PathView> {
    if a <= b {
        shown.subrange(a, b + 1)
    } else {
        shown.subrange(b, a + 1)
    }
}

/// Where a range begins: where the selection began, or at the first selected entry, or at the
/// top.
pub open spec fn range_start(
    shown: Seq<PathView>,
    selected: Seq<PathView>,
    anchor: Option<PathView>,
) -> PathView {
    match anchor {
        Some(path) => path,
        None => match first_selected(shown, selected) {
            Some(i) => shown[i],
            None => shown[0],
        },
    }
}

/// Where the first selected entry is shown.
pub open spec fn first_selected(shown: Seq<PathView>, selected: Seq<PathView>) -> Option<int> {
    if selected.len() == 0 {
        None
    } else {
        found_at(shown, selected[0])
    }
}

/// The selection when it is stretched to a position.
pub open spec fn stretched(shown: Seq<PathView>, start: PathView, to: int) -> Seq<PathView> {
    let end = if to < shown.len() {
        to
    } else {
        shown.len() - 1
    };
    match found_at(shown, start) {
        Some(i) => between(shown, i, end),
        None => between(shown, end, end),
    }
}

/// A stretched selection holds both its ends.
pub proof fn law_stretched_holds_both_ends(shown: Seq<PathView>, start: PathView, to: int)
    requires
        0 <= to < shown.len(),
    ensures
        stretched(shown, start, to).contains(shown[to]),
        shown.contains(start) ==> stretched(shown, start, to).contains(start),
        forall|path: PathView| #[trigger]
            stretched(shown, start, to).contains(path) ==> shown.contains(path),
{
    lemma_position_of(shown, start);
    let all = stretched(shown, start, to);
    let lo = match found_at(shown, start) {
        Some(i) => if i <= to {
            i
        } else {
            to
        },
        None => to,
    };
    assert(all[to - lo] == shown[to]);
    if shown.contains(start) {
        let k = choose|k: int| 0 <= k < shown.len() && shown[k] == start;
        assert(position_of(shown, start) <= k);
        assert(all[position_of(shown, start) - lo] == start);
    }
    assert forall|path: PathView| #[trigger] all.contains(path) implies shown.contains(path) by {
        let k = choose|k: int| 0 <= k < all.len() && all[k] == path;
        assert(shown[lo + k] == path);
    }
}

/// What opening an entry leads to.
#[derive(PartialEq, Eq, Debug)]
pub enum EntryAction {
    Nothing,
    OpenLocal(String),
    OpenRemote(String),
    EditRemote { path: String, size: Option<u64>, modified_at: Option<Timestamp> },
}

/// The listing of one side of a tab.
pub open spec fn pane_entries(tab: TabState, side: PaneSide) -> Seq<FileEntry> {
    match side {
        PaneSide::Local => tab.local.entries@,
        PaneSide::Remote => tab.remote.entries@,
    }
}

/// What opening an entry of a side leads to: a directory is shown, a remote file is edited.
pub open spec fn opens(entry: FileEntry, side: PaneSide) -> EntryAction {
    match (side, entry.kind) {
        (PaneSide::Local, FileKind::Directory) => EntryAction::OpenLocal(entry.path),
        (PaneSide::Local, _) => EntryAction::Nothing,
        (PaneSide::Remote, FileKind::Directory) => EntryAction::OpenRemote(entry.path),
        (PaneSide::Remote, _) => EntryAction::EditRemote {
            path: entry.path,
            size: entry.size,
            modified_at: entry.modified_at,
        },
    }
}

impl TabStore {
    /// Selects paths in the tab at `i`.
    pub(crate) fn select_paths(&mut self, i: usize, paths: Vec<EntryPath>)
        requires
            old(self).wf(),
            i < old(self).tabs@.len(),
        ensures
            final(self).wf(),
            tab_changed(*old(self), *final(self), i as int),
            final(self).tabs@[i as int] == (TabState {
                selected_paths: paths,
                ..old(self).tabs@[i as int]
            }),
    {
        let ghost before = *self;
        self.tabs[i].selected_paths = paths;
        proof {
            assert(self.tabs@ =~= before.tabs@.update(i as int, self.tabs@[i as int]));
            lemma_store_with_tab(before, *self, i as int);
        }
    }
}

impl Workspace {
    /// The query of a pane.
    pub open spec fn query(&self, side: PaneSide) -> Seq<char> {
        match side {
            PaneSide::Local => self.local_filter.query@,
            PaneSide::Remote => self.remote_filter.query@,
        }
    }

    /// The entries of a pane of the active tab.
    pub open spec fn entries(&self, side: PaneSide) -> Seq<FileEntry> {
        match self.tabs.active() {
            Some(tab) => pane_entries(tab, side),
            None => Seq::empty(),
        }
    }

    /// The paths that a pane shows.
    pub open spec fn shown(&self, side: PaneSide, config: Config) -> Seq<PathView> {
        shown_paths(self.entries(side), side, config.show_hidden_files, self.query(side))
    }

    /// The selected paths of the active tab.
    pub open spec fn selected(&self) -> Seq<PathView> {
        match self.tabs.active() {
            Some(tab) => views(tab.selected_paths@),
            None => Seq::empty(),
        }
    }

    /// Where the selection began.
    pub open spec fn anchor(&self) -> Option<PathView> {
        match self.selection_anchor {
            Some(path) => Some(path@),
            None => None,
        }
    }

    /// But for the selection and where it began, the window is as before; and these are as given.
    pub open spec fn selects(
        &self,
        before: Workspace,
        paths: Seq<PathView>,
        anchor: Option<PathView>,
    ) -> bool {
        let i = before.tabs.active_index();
        &&& *self == (Workspace {
            tabs: self.tabs,
            selection_anchor: self.selection_anchor,
            ..before
        })
        &&& self.anchor() == anchor
        &&& tab_changed(before.tabs, self.tabs, i)
        &&& self.tabs.tabs@[i] == (TabState {
            selected_paths: self.tabs.tabs@[i].selected_paths,
            ..before.tabs.tabs@[i]
        })
        &&& views(self.tabs.tabs@[i].selected_paths@) == paths
    }

    /// The positions of the entries that a pane shows, in its listing.
    pub fn visible_indices(&self, side: PaneSide, config: &Config) -> (r: Vec<usize>)
        ensures
            r@.map_values(|i: usize| i as int) == shown_positions(
                self.entries(side),
                config.show_hidden_files,
                self.query(side),
            ),
            r@.len() == self.shown(side, *config).len(),
            forall|k: int|
                0 <= k < r@.len() ==> {
                    &&& (#[trigger] r@[k]) < self.entries(side).len()
                    &&& r@[k] == shown_positions(
                        self.entries(side),
                        config.show_hidden_files,
                        self.query(side),
                    )[k]
                    &&& self.shown(side, *config)[k] == (PathView {
                        side,
                        text: self.entries(side)[r@[k] as int].path@,
                    })
                },
    {
        let ghost at = shown_positions(
            self.entries(side),
            config.show_hidden_files,
            self.query(side),
        );
        proof {
            lemma_shown_positions(
                self.entries(side),
                config.show_hidden_files,
                self.query(side),
            );
        }
        let out = match self.tabs.active_position() {
            Some(i) => match side {
                PaneSide::Local => visible_indices(
                    &self.tabs.tabs[i].local.entries,
                    config.show_hidden_files,
                    self.local_filter.query.as_str(),
                ),
                PaneSide::Remote => visible_indices(
                    &self.tabs.tabs[i].remote.entries,
                    config.show_hidden_files,
                    self.remote_filter.query.as_str(),
                ),
            },
            None => {
                assert(at =~= Seq::<int>::empty()) by {
                    if at.len() > 0 {
                        assert(at[0] == at[0]);
                    }
                }
                Vec::new()
            },
        };
        proof {
            assert(out@.map_values(|i: usize| i as int) =~= at);
            assert forall|k: int| 0 <= k < out@.len() implies {
                &&& (#[trigger] out@[k]) < self.entries(side).len()
                &&& out@[k] == at[k]
                &&& self.shown(side, *config)[k] == (PathView {
                    side,
                    text: self.entries(side)[out@[k] as int].path@,
                })
            } by {
                assert(out@.map_values(|i: usize| i as int)[k] == out@[k] as int);
                assert(at[k] == out@[k]);
            }
        }
        out
    }

    /// How many entries a pane would show without its query.
    pub fn count_after_hidden(&self, side: PaneSide, config: &Config) -> (r: usize)
        ensures
            r == shown_positions(
                self.entries(side),
                config.show_hidden_files,
                Seq::empty(),
            ).len(),
    {
        match self.tabs.active_position() {
            Some(i) => {
                let out = match side {
                    PaneSide::Local => visible_indices(
                        &self.tabs.tabs[i].local.entries,
                        config.show_hidden_files,
                        "",
                    ),
                    PaneSide::Remote => visible_indices(
                        &self.tabs.tabs[i].remote.entries,
                        config.show_hidden_files,
                        "",
                    ),
                };
                proof {
                    reveal_strlit("");
                    assert(""@ =~= Seq::<char>::empty());
                    assert(out@.map_values(|i: usize| i as int).len() == out@.len());
                }
                out.len()
            },
            None => {
                proof {
                    lemma_shown_positions(
                        self.entries(side),
                        config.show_hidden_files,
                        Seq::empty(),
                    );
                    let at = shown_positions(
                        self.entries(side),
                        config.show_hidden_files,
                        Seq::empty(),
                    );
                    if at.len() > 0 {
                        assert(at[0] == at[0]);
                    }
                }
                0
            },
        }
    }

    /// How many entries a pane shows.
    pub fn entry_count(&self, side: PaneSide, config: &Config) -> (r: usize)
        ensures
            r == self.shown(side, *config).len(),
    {
        self.visible_indices(side, config).len()
    }

    /// All that a pane shows.
    pub fn visible_paths(&self, side: PaneSide, config: &Config) -> (r: Vec<EntryPath>)
        ensures
            views(r@) == self.shown(side, *config),
    {
        let at = self.visible_indices(side, config);
        let mut out: Vec<EntryPath> = Vec::new();
        let active = self.tabs.active_position();
        let i: usize = match active {
            Some(i) => i,
            None => {
                proof {
                    if at@.len() > 0 {
                        assert(at@[0] < self.entries(side).len());
                    }
                    assert(views(out@) =~= self.shown(side, *config));
                }
                return out;
            },
        };
        let mut k: usize = 0;
        while k < at.len()
            invariant
                k <= at@.len(),
                out@.len() == k,
                i < self.tabs.tabs@.len(),
                self.tabs.active() == Some(self.tabs.tabs@[i as int]),
                at@.len() == self.shown(side, *config).len(),
                forall|j: int|
                    0 <= j < at@.len() ==> {
                        &&& (#[trigger] at@[j]) < self.entries(side).len()
                        &&& self.shown(side, *config)[j] == (PathView {
                            side,
                            text: self.entries(side)[at@[j] as int].path@,
                        })
                    },
                forall|j: int| 0 <= j < k ==> (#[trigger] out@[j])@ == self.shown(side, *config)[j],
            decreases at@.len() - k,
        {
            let at_k: usize = at[k];
            assert(at@[k as int] < self.entries(side).len());
            let path = match side {
                PaneSide::Local => EntryPath::Local(self.tabs.tabs[i].local.entries[at_k].path.clone()),
                PaneSide::Remote => EntryPath::Remote(
                    self.tabs.tabs[i].remote.entries[at_k].path.clone(),
                ),
            };
            out.push(path);
            k += 1;
        }
        assert(views(out@) =~= self.shown(side, *config));
        out
    }

    /// The path at a position of what a pane shows.
    pub fn entry_path_at(&self, side: PaneSide, visible_index: usize, config: &Config) -> (r: Option<
        EntryPath,
    >)
        ensures
            r is Some <==> visible_index < self.shown(side, *config).len(),
            r is Some ==> r->0@ == self.shown(side, *config)[visible_index as int],
    {
        let paths = self.visible_paths(side, config);
        assert(views(paths@).len() == paths@.len());
        if visible_index < paths.len() {
            assert(views(paths@)[visible_index as int] == paths@[visible_index as int]@);
            Some(paths[visible_index].clone())
        } else {
            None
        }
    }

    /// Where a path is shown in a pane.
    pub fn visible_index_of_path(&self, side: PaneSide, path: &EntryPath, config: &Config) -> (r:
        Option<usize>)
        ensures
            r is Some <==> found_at(self.shown(side, *config), path@) is Some,
            r is Some ==> r->0 == found_at(self.shown(side, *config), path@)->0 && r->0
                < self.shown(side, *config).len(),
    {
        let paths = self.visible_paths(side, config);
        position_in(&paths, path)
    }

    /// Where the first selected path is shown in a pane.
    pub fn selected_index(&self, side: PaneSide, config: &Config) -> (r: Option<usize>)
        ensures
            r is Some <==> first_selected(self.shown(side, *config), self.selected()) is Some,
            r is Some ==> r->0 == first_selected(self.shown(side, *config), self.selected())->0
                && r->0 < self.shown(side, *config).len(),
    {
        match self.tabs.active_position() {
            Some(i) => {
                let selected = &self.tabs.tabs[i].selected_paths;
                assert(views(selected@).len() == selected@.len());
                if selected.len() == 0 {
                    None
                } else {
                    assert(views(selected@)[0] == selected@[0]@);
                    self.visible_index_of_path(side, &selected[0], config)
                }
            },
            None => None,
        }
    }

    /// The end of the selection that moves when it is stretched.
    pub fn selection_edge_visible_index(&self, side: PaneSide, config: &Config) -> (r: Option<
        usize,
    >)
        ensures
            r is Some <==> moving_end(
                self.shown(side, *config),
                self.selected(),
                self.anchor(),
            ) is Some,
            r is Some ==> r->0 == moving_end(
                self.shown(side, *config),
                self.selected(),
                self.anchor(),
            )->0 && r->0 < self.shown(side, *config).len(),
    {
        let i: usize = match self.tabs.active_position() {
            Some(i) => i,
            None => return None,
        };
        let ghost shown = self.shown(side, *config);
        let ghost all = views(self.tabs.tabs@[i as int].selected_paths@);
        let paths = self.visible_paths(side, config);
        let count: usize = self.tabs.tabs[i].selected_paths.len();
        let mut ends: Option<(usize, usize)> = None;
        let mut k: usize = 0;
        assert(all.take(0) =~= Seq::<PathView>::empty());
        while k < count
            invariant
                k <= count,
                count == all.len(),
                i < self.tabs.tabs@.len(),
                all == views(self.tabs.tabs@[i as int].selected_paths@),
                shown == views(paths@),
                match ends {
                    None => selected_positions(shown, all.take(k as int)).len() == 0,
                    Some((lo, hi)) => {
                        let at = selected_positions(shown, all.take(k as int));
                        &&& at.len() > 0
                        &&& lo == least(at)
                        &&& hi == greatest(at)
                        &&& lo < shown.len()
                        &&& hi < shown.len()
                    },
                },
            decreases count - k,
        {
            let ghost at = selected_positions(shown, all.take(k as int));
            proof {
                assert(all.take(k + 1).drop_last() =~= all.take(k as int));
                assert(all.take(k + 1).last() == all[k as int]);
            }
            let found = position_in(&paths, &self.tabs.tabs[i].selected_paths[k]);
            if let Some(p) = found {
                assert(at.push(p as int).drop_last() =~= at);
                ends = match ends {
                    None => Some((p, p)),
                    Some((lo, hi)) => Some(
                        (
                            if p < lo {
                                p
                            } else {
                                lo
                            },
                            if p > hi {
                                p
                            } else {
                                hi
                            },
                        ),
                    ),
                };
            }
            k += 1;
        }
        assert(all.take(k as int) =~= all);
        let began = match &self.selection_anchor {
            Some(path) => position_in(&paths, path),
            None => None,
        };
        match ends {
            None => None,
            Some((lo, hi)) => match began {
                Some(a) => if a == lo {
                    Some(hi)
                } else if a == hi {
                    Some(lo)
                } else {
                    Some(hi)
                },
                None => Some(hi),
            },
        }
    }

    fn put_selection(&mut self, i: usize, paths: Vec<EntryPath>, anchor: Option<EntryPath>)
        requires
            old(self).wf(),
            old(self).tabs.active() is Some,
            i == old(self).tabs.active_index(),
        ensures
            final(self).wf(),
            final(self).selects(
                *old(self),
                views(paths@),
                match anchor {
                    Some(path) => Some(path@),
                    None => None,
                },
            ),
    {
        proof {
            crate::tabs::lemma_active_exists(self.tabs);
        }
        self.selection_anchor = anchor;
        self.tabs.select_paths(i, paths);
    }

    /// Selects the entry at a position of what a pane shows, where there is one.
    pub fn select_index(&mut self, side: PaneSide, visible_index: usize, config: &Config)
        requires
            old(self).wf(),
        ensures
            final(self).wf(),
            ({
                let shown = old(self).shown(side, *config);
                if visible_index < shown.len() {
                    final(self).selects(
                        *old(self),
                        seq![shown[visible_index as int]],
                        Some(shown[visible_index as int]),
                    )
                } else {
                    *final(self) == *old(self)
                }
            }),
    {
        let path = match self.entry_path_at(side, visible_index, config) {
            Some(path) => path,
            None => return,
        };
        let i: usize = match self.tabs.active_position() {
            Some(i) => i,
            None => {
                proof {
                    self.lemma_nothing_shown(side, *config);
                }
                return;
            },
        };
        let mut chosen: Vec<EntryPath> = Vec::new();
        chosen.push(path.clone());
        assert(views(chosen@) =~= seq![path@]);
        self.put_selection(i, chosen, Some(path));
    }

    proof fn lemma_nothing_shown(&self, side: PaneSide, config: Config)
        requires
            self.tabs.active() is None,
        ensures
            self.shown(side, config).len() == 0,
    {
        lemma_shown_positions(self.entries(side), config.show_hidden_files, self.query(side));
        let at = shown_positions(
            self.entries(side),
            config.show_hidden_files,
            self.query(side),
        );
        if at.len() > 0 {
            assert(at[0] == at[0]);
        }
    }

    /// Moves the selection by some entries, held to the ends; where nothing is selected, to the
    /// top.
    pub fn move_selection(&mut self, side: PaneSide, offset: isize, config: &Config)
        requires
            old(self).wf(),
        ensures
            final(self).wf(),
            ({
                let shown = old(self).shown(side, *config);
                let next = match first_selected(shown, old(self).selected()) {
                    Some(current) => clamped(current, offset as int, shown.len() as int),
                    None => 0,
                };
                if shown.len() > 0 {
                    final(self).selects(*old(self), seq![shown[next]], Some(shown[next]))
                } else {
                    *final(self) == *old(self)
                }
            }),
    {
        let count: usize = self.entry_count(side, config);
        if count == 0 {
            return;
        }
        let next: usize = match self.selected_index(side, config) {
            Some(current) => clamped_index(current, offset, count),
            None => 0,
        };
        self.select_index(side, next, config);
    }

    /// Moves the selection by some pages, held to the ends.
    pub fn page_selection(&mut self, side: PaneSide, direction: isize, config: &Config)
        requires
            old(self).wf(),
            isize::MIN <= direction * PAGE_SIZE <= isize::MAX,
        ensures
            final(self).wf(),
            ({
                let shown = old(self).shown(side, *config);
                let current = match first_selected(shown, old(self).selected()) {
                    Some(current) => current,
                    None => 0,
                };
                let next = clamped(current, direction * PAGE_SIZE, shown.len() as int);
                if shown.len() > 0 {
                    final(self).selects(*old(self), seq![shown[next]], Some(shown[next]))
                } else {
                    *final(self) == *old(self)
                }
            }),
    {
        let count: usize = self.entry_count(side, config);
        if count == 0 {
            return;
        }
        let current: usize = match self.selected_index(side, config) {
            Some(current) => current,
            None => 0,
        };
        let next: usize = clamped_index(current, direction * PAGE_SIZE as isize, count);
        self.select_index(side, next, config);
    }

    fn stretched_selection(&self, side: PaneSide, visible_index: usize, config: &Config) -> (r: Option<
        (Vec<EntryPath>, EntryPath),
    >)
        ensures
            r is Some <==> self.shown(side, *config).len() > 0,
            r matches Some((paths, start)) ==> {
                let shown = self.shown(side, *config);
                &&& start@ == range_start(shown, self.selected(), self.anchor())
                &&& views(paths@) == stretched(shown, start@, visible_index as int)
            },
    {
        let paths = self.visible_paths(side, config);
        let ghost shown = self.shown(side, *config);
        assert(views(paths@).len() == paths@.len());
        let count: usize = paths.len();
        if count == 0 {
            return None;
        }
        let end: usize = if visible_index < count {
            visible_index
        } else {
            count - 1
        };
        let first: usize = match self.selected_index(side, config) {
            Some(k) => k,
            None => 0,
        };
        assert(views(paths@)[first as int] == paths@[first as int]@);
        let start_path = match &self.selection_anchor {
            Some(path) => path.clone(),
            None => paths[first].clone(),
        };
        let start: usize = match position_in(&paths, &start_path) {
            Some(k) => k,
            None => end,
        };
        let (lo, hi): (usize, usize) = if start <= end {
            (start, end)
        } else {
            (end, start)
        };
        let chosen = copy_range(&paths, lo, hi);
        assert(views(chosen@) =~= between(shown, start as int, end as int)) by {
            assert forall|k: int| 0 <= k < chosen@.len() implies #[trigger] views(chosen@)[k]
                == shown[lo + k] by {
                assert(views(paths@)[lo + k] == paths@[lo + k]@);
            }
        }
        Some((chosen, start_path))
    }

    /// Stretches the selection from where it began to a position of what a pane shows.
    pub fn extend_selection_to(&mut self, side: PaneSide, visible_index: usize, config: &Config)
        requires
            old(self).wf(),
        ensures
            final(self).wf(),
            ({
                let shown = old(self).shown(side, *config);
                let start = range_start(shown, old(self).selected(), old(self).anchor());
                if shown.len() > 0 {
                    final(self).selects(
                        *old(self),
                        stretched(shown, start, visible_index as int),
                        Some(start),
                    )
                } else {
                    *final(self) == *old(self)
                }
            }),
    {
        let (chosen, start) = match self.stretched_selection(side, visible_index, config) {
            Some(range) => range,
            None => return,
        };
        let i: usize = match self.tabs.active_position() {
            Some(i) => i,
            None => {
                proof {
                    self.lemma_nothing_shown(side, *config);
                }
                return;
            },
        };
        self.put_selection(i, chosen, Some(start));
    }

    /// Stretches the selection by some entries, held to the ends.
    pub fn move_selection_extend(&mut self, side: PaneSide, offset: isize, config: &Config)
        requires
            old(self).wf(),
        ensures
            final(self).wf(),
            ({
                let shown = old(self).shown(side, *config);
                let selected = old(self).selected();
                let start = range_start(shown, selected, old(self).anchor());
                let edge = match moving_end(shown, selected, old(self).anchor()) {
                    Some(edge) => edge,
                    None => match first_selected(shown, selected) {
                        Some(current) => current,
                        None => 0,
                    },
                };
                if shown.len() > 0 {
                    final(self).selects(
                        *old(self),
                        stretched(
                            shown,
                            start,
                            clamped(edge, offset as int, shown.len() as int),
                        ),
                        Some(start),
                    )
                } else {
                    *final(self) == *old(self)
                }
            }),
    {
        let count: usize = self.entry_count(side, config);
        if count == 0 {
            return;
        }
        let current: usize = match self.selected_index(side, config) {
            Some(current) => current,
            None => 0,
        };
        let edge: usize = match self.selection_edge_visible_index(side, config) {
            Some(edge) => edge,
            None => current,
        };
        let next: usize = clamped_index(edge, offset, count);
        self.extend_selection_to(side, next, config);
    }

    /// Selects all that a pane shows.
    pub fn select_all_visible(&mut self, side: PaneSide, config: &Config)
        requires
            old(self).wf(),
        ensures
            final(self).wf(),
            ({
                let shown = old(self).shown(side, *config);
                if old(self).tabs.active() is Some {
                    final(self).selects(
                        *old(self),
                        shown,
                        if shown.len() > 0 {
                            Some(shown[0])
                        } else {
                            old(self).anchor()
                        },
                    )
                } else {
                    *final(self) == *old(self)
                }
            }),
    {
        let i: usize = match self.tabs.active_position() {
            Some(i) => i,
            None => return,
        };
        let paths = self.visible_paths(side, config);
        assert(views(paths@).len() == paths@.len());
        let anchor = if paths.len() > 0 {
            assert(views(paths@)[0] == paths@[0]@);
            Some(paths[0].clone())
        } else {
            self.selection_anchor.clone()
        };
        self.put_selection(i, paths, anchor);
    }

    /// Selects the last entry that a pane shows.
    pub fn select_last(&mut self, side: PaneSide, config: &Config)
        requires
            old(self).wf(),
        ensures
            final(self).wf(),
            ({
                let shown = old(self).shown(side, *config);
                if shown.len() > 0 {
                    final(self).selects(*old(self), seq![shown.last()], Some(shown.last()))
                } else {
                    *final(self) == *old(self)
                }
            }),
    {
        let count: usize = self.entry_count(side, config);
        if count > 0 {
            self.select_index(side, count - 1, config);
        }
    }

    /// What opening the entry at a position of what a pane shows leads to.
    pub fn open_entry_at(&self, side: PaneSide, visible_index: usize, config: &Config) -> (r:
        EntryAction)
        ensures
            ({
                let at = shown_positions(
                    self.entries(side),
                    config.show_hidden_files,
                    self.query(side),
                );
                r == if visible_index < at.len() {
                    opens(self.entries(side)[at[visible_index as int]], side)
                } else {
                    EntryAction::Nothing
                }
            }),
    {
        let at = self.visible_indices(side, config);
        assert(at@.len() == shown_positions(
            self.entries(side),
            config.show_hidden_files,
            self.query(side),
        ).len());
        if visible_index >= at.len() {
            return EntryAction::Nothing;
        }
        let k: usize = at[visible_index];
        assert(at@[visible_index as int] < self.entries(side).len());
        let i: usize = match self.tabs.active_position() {
            Some(i) => i,
            None => return EntryAction::Nothing,
        };
        match side {
            PaneSide::Local => {
                let entry = &self.tabs.tabs[i].local.entries[k];
                if entry.kind == FileKind::Directory {
                    EntryAction::OpenLocal(entry.path.clone())
                } else {
                    EntryAction::Nothing
                }
            },
            PaneSide::Remote => {
                let entry = &self.tabs.tabs[i].remote.entries[k];
                if entry.kind == FileKind::Directory {
                    EntryAction::OpenRemote(entry.path.clone())
                } else {
                    EntryAction::EditRemote {
                        path: entry.path.clone(),
                        size: entry.size,
                        modified_at: entry.modified_at,
                    }
                }
            },
        }
    }

    /// What opening the selected entry of the focused pane leads to.
    pub fn open_selected_entry(&self, config: &Config) -> (r: EntryAction)
        ensures
            ({
                let side = self.focused_side;
                let at = shown_positions(
                    self.entries(side),
                    config.show_hidden_files,
                    self.query(side),
                );
                r == match first_selected(self.shown(side, *config), self.selected()) {
                    Some(k) => opens(self.entries(side)[at[k]], side),
                    None => EntryAction::Nothing,
                }
            }),
    {
        match self.selected_index(self.focused_side, config) {
            Some(k) => self.open_entry_at(self.focused_side, k, config),
            None => EntryAction::Nothing,
        }
    }
}

/// Where a path first stands in a list.
pub fn position_in(paths: &Vec<EntryPath>, path: &EntryPath) -> (r: Option<usize>)
    ensures
        r is Some <==> found_at(views(paths@), path@) is Some,
        r is Some ==> r->0 == found_at(views(paths@), path@)->0 && r->0 < paths@.len(),
{
    let ghost all = views(paths@);
    let mut i: usize = 0;
    while i < paths.len()
        invariant
            i <= paths@.len(),
            all == views(paths@),
            forall|k: int| 0 <= k < i ==> #[trigger] all[k] != path@,
        decreases paths@.len() - i,
    {
        assert(all[i as int] == paths@[i as int]@);
        if paths[i].same(path) {
            proof {
                lemma_position_is(all, path@, i as int);
            }
            return Some(i);
        }
        i += 1;
    }
    proof {
        lemma_position_is(all, path@, i as int);
    }
    None
}

fn copy_range(paths: &Vec<EntryPath>, lo: usize, hi: usize) -> (r: Vec<EntryPath>)
    requires
        lo <= hi < paths@.len(),
    ensures
        r@.len() == hi - lo + 1,
        forall|k: int| 0 <= k < r@.len() ==> #[trigger] r@[k] == paths@[lo + k],
{
    let count: usize = paths.len();
    let mut out: Vec<EntryPath> = Vec::new();
    let mut i: usize = lo;
    while i <= hi
        invariant
            lo <= i <= hi + 1,
            hi < count,
            count == paths@.len(),
            out@.len() == i - lo,
            forall|k: int| 0 <= k < out@.len() ==> #[trigger] out@[k] == paths@[lo + k],
        decreases hi + 1 - i,
    {
        out.push(paths[i].clone());
        i += 1;
    }
    out
}

}
