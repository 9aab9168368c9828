//! What a pane lists, and selecting in it with mouse and keyboard.

use vstd::prelude::*;

use super::common::{lemma_shown, shows};
use crate::lists::clamped;
use crate::model::{EntryPath, FileEntry, PaneSide, PathView};
use crate::selection::{
    between, found_at, greatest, law_shown_entries, least, lemma_position_of, positions,
    selected_positions, shown_at, shown_positions, views, EntryAction,
};
use crate::text::{all_ascii, ascii_small, has_text, lowercase, occurs_at};
use crate::workspace::{Config, Workspace};

verus! {

/// The smaller of two numbers.
pub open spec fn low(a: int, b: int) -> int {
    if a <= b {
        a
    } else {
        b
    }
}

/// The larger of two numbers.
pub open spec fn high(a: int, b: int) -> int {
    if a <= b {
        b
    } else {
        a
    }
}

/// In the tab at `i` the entries from `s` to `e` of those listed are selected, one after the other,
/// and the selection began at `s`.
pub open spec fn selects_range(w: Workspace, i: int, listed: Seq<EntryPath>, s: int, e: int) -> bool {
    let selected = w.tabs.tabs@[i].selected_paths@;
    &&& 0 <= s < listed.len()
    &&& 0 <= e < listed.len()
    &&& selected.len() == high(s, e) - low(s, e) + 1
    &&& forall|k: int|
        0 <= k < selected.len() ==> (#[trigger] selected[k])@ == listed[low(s, e) + k]@
    &&& w.selection_anchor is Some
    &&& w.selection_anchor->0@ == listed[s]@
}

/// No entry is listed twice.
pub open spec fn lists_each_once(listed: Seq<EntryPath>) -> bool {
    forall|a: int, b: int|
        0 <= a < b < listed.len() ==> (#[trigger] listed[a])@ != (#[trigger] listed[b])@
}

proof fn lemma_found_at(shown: Seq<PathView>, k: int)
    requires
        0 <= k < shown.len(),
        shown.no_duplicates(),
    ensures
        found_at(shown, shown[k]) == Some(k),
{
    lemma_position_of(shown, shown[k]);
    let p = crate::selection::position_of(shown, shown[k]);
    if p < k {
        assert(shown[p] == shown[k]);
    } else if k < p {
        assert(shown[k] != shown[k]);
    }
}

proof fn lemma_range_ends(shown: Seq<PathView>, lo: int, hi: int)
    requires
        0 <= lo <= hi < shown.len(),
        shown.no_duplicates(),
    ensures
        ({
            let at = selected_positions(shown, shown.subrange(lo, hi + 1));
            at.len() == hi - lo + 1 && least(at) == lo && greatest(at) == hi
        }),
    decreases hi - lo,
{
    let range = shown.subrange(lo, hi + 1);
    let at = selected_positions(shown, range);
    lemma_found_at(shown, hi);
    assert(range.last() == shown[hi]);
    if lo == hi {
        assert(range.drop_last() =~= Seq::<PathView>::empty());
        assert(selected_positions(shown, range.drop_last()) =~= Seq::<int>::empty());
        assert(at =~= seq![hi]);
    } else {
        lemma_range_ends(shown, lo, hi - 1);
        assert(range.drop_last() =~= shown.subrange(lo, hi));
        let front = selected_positions(shown, shown.subrange(lo, hi));
        assert(at == front.push(hi));
        assert(at.drop_last() =~= front);
    }
}

proof fn lemma_listed(listed: Seq<EntryPath>)
    requires
        lists_each_once(listed),
    ensures
        views(listed).no_duplicates(),
        views(listed).len() == listed.len(),
        forall|k: int| 0 <= k < listed.len() ==> #[trigger] views(listed)[k] == listed[k]@,
{
    let v = views(listed);
    assert forall|a: int, b: int| 0 <= a < v.len() && 0 <= b < v.len() && a != b implies v[a]
        != v[b] by {
        if a < b {
            assert(listed[a]@ != listed[b]@);
        } else {
            assert(listed[b]@ != listed[a]@);
        }
    }
}

proof fn lemma_selected_range(w: Workspace, i: int, listed: Seq<EntryPath>, s: int, e: int)
    requires
        shows(w, i),
        selects_range(w, i, listed, s, e),
    ensures
        w.selected() == between(views(listed), s, e),
        w.anchor() == Some(views(listed)[s]),
{
    lemma_shown(w, i);
    let v = views(listed);
    let selected = w.tabs.tabs@[i].selected_paths@;
    let lo = low(s, e);
    assert(views(selected) =~= v.subrange(lo, high(s, e) + 1)) by {
        assert forall|k: int| 0 <= k < selected.len() implies views(selected)[k] == #[trigger] v[lo
            + k] by {
            assert(selected[k]@ == listed[lo + k]@);
        }
    }
}

/// A selection that holds a range is one.
proof fn lemma_range_selected(
    before: Workspace,
    after: Workspace,
    i: int,
    listed: Seq<EntryPath>,
    s: int,
    e: int,
)
    requires
        shows(before, i),
        0 <= s < listed.len(),
        0 <= e < listed.len(),
        after.selects(before, between(views(listed), s, e), Some(views(listed)[s])),
    ensures
        selects_range(after, i, listed, s, e),
        shows(after, i),
{
    lemma_shown(before, i);
    crate::tabs::lemma_store_with_tab(before.tabs, after.tabs, i);
    let selected = after.tabs.tabs@[i].selected_paths@;
    let range = between(views(listed), s, e);
    assert(views(selected).len() == selected.len());
    assert forall|k: int| 0 <= k < selected.len() implies (#[trigger] selected[k])@ == listed[low(
        s,
        e,
    ) + k]@ by {
        assert(views(selected)[k] == selected[k]@);
        assert(range[k] == views(listed)[low(s, e) + k]);
    }
}

/// The position `offset` from `at`, held between the first and the last of `count`.
pub open spec fn held(at: int, offset: int, count: int) -> int {
    high(0, low(at + offset, count - 1))
}

/// Stretching a selection moves its end that is away from where it began, and holds it to the
/// list: the range from `s` to `e` becomes that from `s` to `e` and so many entries further. So
/// stretching step by step reaches as far as stretching at once.
pub proof fn law_stretching_moves_the_far_end(
    w: &mut Workspace,
    i: int,
    side: PaneSide,
    config: Config,
    listed: Vec<EntryPath>,
    s: int,
    e: int,
    offset: isize,
)
    requires
        shows(*old(w), i),
        call_ensures(Workspace::visible_paths, (&*old(w), side, &config), listed),
        lists_each_once(listed@),
        selects_range(*old(w), i, listed@, s, e),
        call_ensures(Workspace::move_selection_extend, (w, side, offset, &config), ()),
    ensures
        selects_range(*final(w), i, listed@, s, held(e, offset as int, listed@.len() as int)),
        shows(*final(w), i),
{
    lemma_listed(listed@);
    lemma_selected_range(*old(w), i, listed@, s, e);
    let v = views(listed@);
    lemma_range_ends(v, low(s, e), high(s, e));
    lemma_found_at(v, s);
    let n = clamped(e, offset as int, v.len() as int);
    assert(n == held(e, offset as int, v.len() as int));
    lemma_range_selected(*old(w), *final(w), i, listed@, s, n);
}

/// Stretching by some entries and then by more selects what stretching by all of them at once
/// does, while none of it goes past the ends.
pub proof fn law_stretches_add_up(
    a: &mut Workspace,
    b: &mut Workspace,
    c: &mut Workspace,
    i: int,
    side: PaneSide,
    config: Config,
    listed: Vec<EntryPath>,
    later: Vec<EntryPath>,
    s: int,
    first: isize,
    second: isize,
    both: isize,
)
    requires
        shows(*old(a), i),
        call_ensures(Workspace::visible_paths, (&*old(a), side, &config), listed),
        lists_each_once(listed@),
        selects_range(*old(a), i, listed@, s, s),
        0 <= s + first < listed@.len(),
        0 <= s + first + second < listed@.len(),
        both == first + second,
        call_ensures(Workspace::move_selection_extend, (a, side, first, &config), ()),
        *old(b) == *final(a),
        call_ensures(Workspace::visible_paths, (&*old(b), side, &config), later),
        call_ensures(Workspace::move_selection_extend, (b, side, second, &config), ()),
        *old(c) == *old(a),
        call_ensures(Workspace::move_selection_extend, (c, side, both, &config), ()),
    ensures
        selects_range(*final(b), i, listed@, s, s + first + second),
        selects_range(*final(c), i, listed@, s, s + first + second),
{
    law_stretching_moves_the_far_end(a, i, side, config, listed, s, s, first);
    law_stretching_moves_the_far_end(c, i, side, config, listed, s, s, both);
    lemma_shown(*old(a), i);
    assert(views(listed@).len() == listed@.len());
    lemma_selecting_lists_the_same(*old(a), *final(a), i, side, config);
    assert(views(later@) == views(listed@));
    lemma_listed(listed@);
    assert forall|k: int| 0 <= k < later@.len() implies (#[trigger] later@[k])@ == listed@[k]@ by {
        assert(views(later@)[k] == views(listed@)[k]);
    }
    assert(views(later@).len() == later@.len());
    assert(lists_each_once(later@)) by {
        assert forall|x: int, y: int| 0 <= x < y < later@.len() implies (#[trigger] later@[x])@ != (
        #[trigger] later@[y])@ by {
            assert(listed@[x]@ != listed@[y]@);
        }
    }
    let lo = low(s, s + first);
    assert(selects_range(*old(b), i, later@, s, s + first)) by {
        let selected = old(b).tabs.tabs@[i].selected_paths@;
        assert forall|k: int| 0 <= k < selected.len() implies (#[trigger] selected[k])@ == later@[lo
            + k]@ by {
            assert(selected[k]@ == listed@[lo + k]@);
            assert(later@[lo + k]@ == listed@[lo + k]@);
        }
        assert(later@[s]@ == listed@[s]@);
    }
    law_stretching_moves_the_far_end(b, i, side, config, later, s, s + first, second);
    let to = s + first + second;
    let selected = final(b).tabs.tabs@[i].selected_paths@;
    assert forall|k: int| 0 <= k < selected.len() implies (#[trigger] selected[k])@
        == listed@[low(s, to) + k]@ by {
        assert(selected[k]@ == later@[low(s, to) + k]@);
        assert(later@[low(s, to) + k]@ == listed@[low(s, to) + k]@);
    }
    assert(later@[s]@ == listed@[s]@);
}

/// Selecting changes nothing of what is listed.
proof fn lemma_selecting_lists_the_same(
    before: Workspace,
    after: Workspace,
    i: int,
    side: PaneSide,
    config: Config,
)
    requires
        shows(before, i),
        after.tabs.active_tab_id == before.tabs.active_tab_id,
        after.local_filter == before.local_filter,
        after.remote_filter == before.remote_filter,
        crate::tabs::tab_changed(before.tabs, after.tabs, i),
        after.tabs.tabs@[i].local == before.tabs.tabs@[i].local,
        after.tabs.tabs@[i].remote == before.tabs.tabs@[i].remote,
    ensures
        after.shown(side, config) == before.shown(side, config),
{
    lemma_shown(before, i);
    crate::tabs::lemma_store_with_tab(before.tabs, after.tabs, i);
}

/// Selecting up to an entry selects from where the selection began to that entry, and the last
/// one where there is no such entry.
pub proof fn law_selection_is_stretched_to_an_entry(
    w: &mut Workspace,
    i: int,
    side: PaneSide,
    config: Config,
    listed: Vec<EntryPath>,
    s: int,
    e: int,
    to: usize,
)
    requires
        shows(*old(w), i),
        call_ensures(Workspace::visible_paths, (&*old(w), side, &config), listed),
        lists_each_once(listed@),
        selects_range(*old(w), i, listed@, s, e),
        call_ensures(Workspace::extend_selection_to, (w, side, to, &config), ()),
    ensures
        selects_range(*final(w), i, listed@, s, low(to as int, listed@.len() - 1)),
{
    lemma_listed(listed@);
    lemma_selected_range(*old(w), i, listed@, s, e);
    let v = views(listed@);
    lemma_found_at(v, s);
    lemma_range_selected(*old(w), *final(w), i, listed@, s, low(to as int, listed@.len() - 1));
}

/// Selecting an entry selects that entry alone, and a selection begins there; an entry that is not
/// listed cannot be selected.
pub proof fn law_entry_is_selected_alone(
    w: &mut Workspace,
    i: int,
    side: PaneSide,
    config: Config,
    listed: Vec<EntryPath>,
    k: usize,
)
    requires
        shows(*old(w), i),
        call_ensures(Workspace::visible_paths, (&*old(w), side, &config), listed),
        call_ensures(Workspace::select_index, (w, side, k, &config), ()),
    ensures
        k < listed@.len() ==> selects_range(*final(w), i, listed@, k as int, k as int),
        k >= listed@.len() ==> *final(w) == *old(w),
{
    let v = views(listed@);
    assert(v.len() == listed@.len());
    if k < listed@.len() {
        assert(seq![v[k as int]] =~= between(v, k as int, k as int));
        lemma_range_selected(*old(w), *final(w), i, listed@, k as int, k as int);
    }
}

/// Moving the selection moves it by so many entries and holds it to the list; from no selection it
/// goes to the top. A page is ten entries. The last entry and all of them can be selected too.
pub proof fn law_selection_is_moved(
    w: &mut Workspace,
    p: &mut Workspace,
    l: &mut Workspace,
    all: &mut Workspace,
    i: int,
    side: PaneSide,
    config: Config,
    listed: Vec<EntryPath>,
    k: int,
    offset: isize,
    pages: isize,
)
    requires
        shows(*old(w), i),
        call_ensures(Workspace::visible_paths, (&*old(w), side, &config), listed),
        lists_each_once(listed@),
        listed@.len() > 0,
        old(w).tabs.tabs@[i].selected_paths@.len() > 0 ==> selects_range(
            *old(w),
            i,
            listed@,
            k,
            k,
        ),
        call_ensures(Workspace::move_selection, (w, side, offset, &config), ()),
        *old(p) == *old(w),
        call_ensures(Workspace::page_selection, (p, side, pages, &config), ()),
        *old(l) == *old(w),
        call_ensures(Workspace::select_last, (l, side, &config), ()),
        *old(all) == *old(w),
        call_ensures(Workspace::select_all_visible, (all, side, &config), ()),
    ensures
        ({
            let n = listed@.len() as int;
            let some = old(w).tabs.tabs@[i].selected_paths@.len() > 0;
            let next = if some {
                held(k, offset as int, n)
            } else {
                0
            };
            let paged = held(
                if some {
                    k
                } else {
                    0
                },
                pages * 10,
                n,
            );
            &&& selects_range(*final(w), i, listed@, next, next)
            &&& selects_range(*final(p), i, listed@, paged, paged)
            &&& selects_range(*final(l), i, listed@, n - 1, n - 1)
            &&& selects_range(*final(all), i, listed@, 0, n - 1)
        }),
{
    lemma_listed(listed@);
    lemma_shown(*old(w), i);
    let v = views(listed@);
    let n = listed@.len() as int;
    let some = old(w).tabs.tabs@[i].selected_paths@.len() > 0;
    let selected = old(w).tabs.tabs@[i].selected_paths@;
    assert(views(selected).len() == selected.len());
    if some {
        lemma_selected_range(*old(w), i, listed@, k, k);
        lemma_found_at(v, k);
        assert(between(v, k, k)[0] == v[k]);
    }
    let next = if some {
        held(k, offset as int, n)
    } else {
        0
    };
    let paged = held(
        if some {
            k
        } else {
            0
        },
        pages * 10,
        n,
    );
    assert(seq![v[next]] =~= between(v, next, next));
    assert(seq![v[paged]] =~= between(v, paged, paged));
    assert(seq![v[n - 1]] =~= between(v, n - 1, n - 1));
    assert(v =~= between(v, 0, n - 1));
    assert(v.last() == v[n - 1]);
    lemma_range_selected(*old(w), *final(w), i, listed@, next, next);
    lemma_range_selected(*old(p), *final(p), i, listed@, paged, paged);
    lemma_range_selected(*old(l), *final(l), i, listed@, n - 1, n - 1);
    lemma_range_selected(*old(all), *final(all), i, listed@, 0, n - 1);
}

proof fn lemma_positions_rise(n: nat, keep: spec_fn(int) -> bool)
    ensures
        forall|a: int, b: int|
            0 <= a < b < positions(n).filter(keep).len() ==> (#[trigger] positions(n).filter(
                keep,
            )[a]) < (#[trigger] positions(n).filter(keep)[b]),
        forall|a: int|
            0 <= a < positions(n).filter(keep).len() ==> 0 <= (#[trigger] positions(n).filter(
                keep,
            )[a]) < n,
    decreases n,
{
    reveal(Seq::filter);
    if n > 0 {
        let m = (n - 1) as nat;
        lemma_positions_rise(m, keep);
        assert(positions(n).drop_last() =~= positions(m));
        assert(positions(n).last() == m as int);
        let front = positions(m).filter(keep);
        assert(positions(n).filter(keep) == if keep(m as int) {
            front.push(m as int)
        } else {
            front
        });
    } else {
        assert(positions(n) =~= Seq::<int>::empty());
        assert(positions(n).filter(keep) =~= Seq::<int>::empty());
    }
}

/// The entries of one side of a tab.
pub open spec fn listing(w: Workspace, i: int, side: PaneSide) -> Seq<FileEntry> {
    match side {
        PaneSide::Local => w.tabs.tabs@[i].local.entries@,
        PaneSide::Remote => w.tabs.tabs@[i].remote.entries@,
    }
}

/// What the filter of a side looks for.
pub open spec fn sought(w: Workspace, side: PaneSide) -> Seq<char> {
    match side {
        PaneSide::Local => w.local_filter.query@,
        PaneSide::Remote => w.remote_filter.query@,
    }
}

/// The same letter, large or small, or the same mark.
pub open spec fn same_letter(a: char, b: char) -> bool {
    ||| a == b
    ||| 'A' <= a <= 'Z' && b as int == a as int + 32
    ||| 'A' <= b <= 'Z' && a as int == b as int + 32
}

/// The text stands in the other from `at` on, whether its letters are large or small.
pub open spec fn reads_at(text: Seq<char>, other: Seq<char>, at: int) -> bool {
    &&& 0 <= at
    &&& at + text.len() <= other.len()
    &&& forall|k: int| 0 <= k < text.len() ==> same_letter(#[trigger] text[k], other[at + k])
}

pub(crate) proof fn lemma_reads(name: Seq<char>, query: Seq<char>)
    requires
        all_ascii(name),
        all_ascii(query),
    ensures
        has_text(lowercase(name), lowercase(query)) <==> exists|at: int| reads_at(query, name, at),
{
    let (hay, needle) = (lowercase(name), lowercase(query));
    assert(hay.len() == name.len() && needle.len() == query.len());
    assert forall|k: int| 0 <= k < name.len() implies #[trigger] hay[k] == ascii_small(name[k]) by {}
    assert forall|k: int| 0 <= k < query.len() implies #[trigger] needle[k] == ascii_small(
        query[k],
    ) by {}
    if has_text(hay, needle) {
        let at = choose|at: int| occurs_at(hay, needle, at);
        assert forall|k: int| 0 <= k < query.len() implies same_letter(
            #[trigger] query[k],
            name[at + k],
        ) by {
            assert(hay.subrange(at, at + needle.len())[k] == needle[k]);
            assert(hay[at + k] == needle[k]);
        }
        assert(reads_at(query, name, at));
    }
    if exists|at: int| reads_at(query, name, at) {
        let at = choose|at: int| reads_at(query, name, at);
        assert forall|k: int| 0 <= k < needle.len() implies hay.subrange(
            at,
            at + needle.len(),
        )[k] == needle[k] by {
            assert(same_letter(query[k], name[at + k]));
            assert(hay[at + k] == ascii_small(name[at + k]));
        }
        assert(hay.subrange(at, at + needle.len()) =~= needle);
        assert(occurs_at(hay, needle, at));
    }
}

/// A pane lists the entries of its directory in their order: hidden ones where they are wanted,
/// and of those the ones whose name holds what the filter looks for, in large or small letters.
/// Each is listed with its own path, and opening it opens that entry.
pub proof fn law_pane_lists_what_is_wanted(
    w: Workspace,
    i: int,
    side: PaneSide,
    config: Config,
    at: Vec<usize>,
    listed: Vec<EntryPath>,
    e: usize,
)
    requires
        shows(w, i),
        call_ensures(Workspace::visible_indices, (&w, side, &config), at),
        call_ensures(Workspace::visible_paths, (&w, side, &config), listed),
        0 <= e < listing(w, i, side).len(),
    ensures
        ({
            let entries = listing(w, i, side);
            let query = sought(w, side);
            let name = entries[e as int].name@;
            let hidden = name.len() > 0 && name[0] == '.';
            let wanted = config.show_hidden_files || !hidden;
            &&& forall|a: int, b: int|
                0 <= a < b < at@.len() ==> #[trigger] at@[a] < #[trigger] at@[b]
            &&& forall|a: int| 0 <= a < at@.len() ==> #[trigger] at@[a] < entries.len()
            &&& at@.len() == listed@.len()
            &&& forall|a: int|
                0 <= a < at@.len() ==> (#[trigger] listed@[a])@ == (PathView {
                    side,
                    text: entries[at@[a] as int].path@,
                })
            &&& query.len() == 0 ==> (at@.contains(e) <==> wanted)
            &&& all_ascii(query) && all_ascii(name) && query.len() > 0 ==> (at@.contains(e) <==> wanted && exists|j: int| reads_at(query, name, j))
            &&& !wanted ==> !at@.contains(e)
        }),
{
    lemma_shown(w, i);
    let entries = listing(w, i, side);
    let query = sought(w, side);
    let hidden = config.show_hidden_files;
    let shown = shown_positions(entries, hidden, query);
    lemma_positions_rise(entries.len(), shown_at(entries, hidden, query));
    law_shown_entries(entries, side, hidden, query, e as int);
    assert(at@.map_values(|k: usize| k as int) == shown);
    assert(at@.len() == shown.len());
    assert forall|a: int| 0 <= a < at@.len() implies #[trigger] at@[a] == shown[a] by {
        assert(at@.map_values(|k: usize| k as int)[a] == at@[a] as int);
    }
    assert(views(listed@).len() == listed@.len());
    assert forall|a: int| 0 <= a < at@.len() implies (#[trigger] listed@[a])@ == (PathView {
        side,
        text: entries[at@[a] as int].path@,
    }) by {
        assert(views(listed@)[a] == listed@[a]@);
        assert(at@[a] == shown[a]);
    }
    assert(at@.contains(e) <==> shown.contains(e as int)) by {
        if at@.contains(e) {
            let a = choose|a: int| 0 <= a < at@.len() && at@[a] == e;
            assert(shown[a] == e);
        }
        if shown.contains(e as int) {
            let a = choose|a: int| 0 <= a < shown.len() && shown[a] == e;
            assert(at@[a] == e);
        }
    }
    if all_ascii(query) && all_ascii(entries[e as int].name@) {
        lemma_reads(entries[e as int].name@, query);
    }
}

/// Opening a listed entry opens that entry: a directory is shown, and a remote file is edited as
/// it is listed.
pub proof fn law_listed_entry_is_opened(
    w: Workspace,
    i: int,
    side: PaneSide,
    config: Config,
    at: Vec<usize>,
    k: usize,
    r: EntryAction,
)
    requires
        shows(w, i),
        call_ensures(Workspace::visible_indices, (&w, side, &config), at),
        call_ensures(Workspace::open_entry_at, (&w, side, k, &config), r),
    ensures
        k >= at@.len() ==> r is Nothing,
        k < at@.len() ==> {
            let entry = listing(w, i, side)[at@[k as int] as int];
            match (side, entry.kind is Directory) {
                (PaneSide::Local, true) => r == EntryAction::OpenLocal(entry.path),
                (PaneSide::Local, false) => r is Nothing,
                (PaneSide::Remote, true) => r == EntryAction::OpenRemote(entry.path),
                (PaneSide::Remote, false) => r == (EntryAction::EditRemote {
                    path: entry.path,
                    size: entry.size,
                    modified_at: entry.modified_at,
                }),
            }
        },
{
    lemma_shown(w, i);
    let entries = listing(w, i, side);
    let shown = shown_positions(entries, config.show_hidden_files, sought(w, side));
    assert(at@.map_values(|j: usize| j as int) == shown);
    assert(at@.map_values(|j: usize| j as int).len() == at@.len());
    if k < at@.len() {
        assert(at@.map_values(|j: usize| j as int)[k as int] == at@[k as int] as int);
    }
}

}
