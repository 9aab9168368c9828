//! Opening remote files for editing: which file, whether to ask, and where its copy lies.

use vstd::prelude::*;

use super::common::{lemma_shown, lemma_tab_at, shows};
use crate::edit_sessions::{
    edits, lemma_first_where, lemma_first_where_bound, not_of_tab, of_tab, EditSession,
    EditSessionStore,
};
use crate::lists::lemma_filter_holds;
use crate::model::{
    ConnectionState, Dispatch, EditSessionId, EntryPath, FileEntry, PathView, ProfileId, SessionId,
    TabId,
};
use crate::remote_edit::{edit_temp_path, file_at, first_file, EditStart, EditTarget};
use crate::resources::{lemma_decimal_injective, lemma_decimal_is_digits};
use crate::selection::views;
use crate::tabs::TabState;
use crate::text::{decimal, file_name_in};
use crate::workspace::{Config, PendingEdit, Workspace};

verus! {

/// The profile that a tab belongs to; zero stands for none.
pub open spec fn profile_of(tab: TabState) -> ProfileId {
    match tab.profile_id {
        Some(id) => id,
        None => ProfileId(0),
    }
}

/// A file that nobody edits yet is fetched as it was named, over the connection of the tab that it
/// was opened in: at once where it is no larger than a hundred mebibytes, and otherwise once the
/// user agrees.
pub proof fn law_opened_file_is_fetched(
    w: &mut Workspace,
    store: &mut EditSessionStore,
    agreed: &mut Workspace,
    i: int,
    session_id: SessionId,
    epoch: u64,
    target: EditTarget,
    live: Vec<TabId>,
    config: Config,
    r: (EditStart, Vec<EditSession>),
    pending: Option<PendingEdit>,
)
    requires
        shows(*old(w), i),
        old(store).wf(),
        old(w).tabs.tabs@[i].connection == (ConnectionState::Connected {
            session_id,
            session_epoch: epoch,
        }),
        forall|k: int|
            0 <= k < old(store).sessions@.len() ==> (#[trigger] old(store).sessions@[k]).remote_path@
                != target.path@ || old(store).sessions@[k].profile_id != profile_of(
                old(w).tabs.tabs@[i],
            ),
        call_ensures(Workspace::begin_edit, (w, target, store, &live, &config), r),
        *old(agreed) == *final(w),
        call_ensures(Workspace::confirm_large_edit, (agreed,), pending),
    ensures
        ({
            let large = target.size is Some && target.size->0 > 104_857_600;
            let fetched = if large {
                pending
            } else {
                match r.0 {
                    EditStart::Download(p) => Some(p),
                    _ => None,
                }
            };
            &&& r.0 is Asked <==> large
            &&& r.1@.len() == 0
            &&& *final(store) == *old(store)
            &&& !large ==> *final(w) == *old(w)
            &&& large ==> final(w).large_edit_confirm is Some && final(agreed).large_edit_confirm is None
            &&& fetched is Some
            &&& fetched->0.remote_path == target.path
            &&& fetched->0.size == target.size
            &&& fetched->0.modified_at == target.modified_at
            &&& fetched->0.session_epoch == epoch
            &&& fetched->0.profile_id == profile_of(old(w).tabs.tabs@[i])
            &&& fetched->0.tab_id == old(w).tabs.tabs@[i].id
        }),
{
    lemma_shown(*old(w), i);
    let tab = old(w).tabs.tabs@[i];
    let meets = edits(profile_of(tab), target.path@);
    assert forall|k: int| 0 <= k < old(store).sessions@.len() implies !meets(
        #[trigger] old(store).sessions@[k],
    ) by {}
    lemma_first_where(old(store).sessions@, meets, old(store).sessions@.len() as int);
    lemma_tab_at(old(w).tabs.tabs@, i);
}

/// A file that is open in a live tab is not fetched again: its copy is shown once more, in the
/// configured editor, and nothing else happens.
pub proof fn law_open_file_is_reopened(
    w: &mut Workspace,
    store: &mut EditSessionStore,
    i: int,
    k: int,
    session_id: SessionId,
    epoch: u64,
    target: EditTarget,
    live: Vec<TabId>,
    config: Config,
    r: (EditStart, Vec<EditSession>),
)
    requires
        shows(*old(w), i),
        old(store).wf(),
        old(w).tabs.tabs@[i].connection == (ConnectionState::Connected {
            session_id,
            session_epoch: epoch,
        }),
        0 <= k < old(store).sessions@.len(),
        old(store).sessions@[k].remote_path@ == target.path@,
        old(store).sessions@[k].profile_id == profile_of(old(w).tabs.tabs@[i]),
        forall|j: int|
            0 <= j < k ==> (#[trigger] old(store).sessions@[j]).remote_path@ != target.path@,
        live@.contains(old(store).sessions@[k].tab_id),
        call_ensures(Workspace::begin_edit, (w, target, store, &live, &config), r),
    ensures
        ({
            let session = old(store).sessions@[k];
            &&& *final(store) == *old(store)
            &&& r.1@.len() == 0
            &&& session.phase is Editing || session.phase is UploadingBack ==> {
                &&& r.0 == (EditStart::Reopen {
                    temp_path: session.local_temp_path,
                    editor: config.external_editor,
                })
                &&& *final(w) == *old(w)
            }
            &&& !(session.phase is Editing || session.phase is UploadingBack) ==> {
                &&& r.0 is Nothing
                &&& final(w).status_message is Some
                &&& session.phase is Downloading ==> final(w).status_message->0@
                    == "File is still downloading for editing"@
                &&& session.phase is CheckingRemote ==> final(w).status_message->0@
                    == "Checking the remote file before saving"@
                &&& session.phase is RemoteConflict ==> final(w).status_message->0@
                    == "Resolve the remote edit conflict before reopening"@
            }
        }),
{
    lemma_shown(*old(w), i);
    let tab = old(w).tabs.tabs@[i];
    let meets = edits(profile_of(tab), target.path@);
    assert forall|j: int| 0 <= j < k implies !meets(#[trigger] old(store).sessions@[j]) by {}
    lemma_first_where(old(store).sessions@, meets, k);
}

/// Without a connection no file is opened.
pub proof fn law_unconnected_tab_opens_nothing(
    w: &mut Workspace,
    store: &mut EditSessionStore,
    i: int,
    target: EditTarget,
    live: Vec<TabId>,
    config: Config,
    r: (EditStart, Vec<EditSession>),
)
    requires
        shows(*old(w), i),
        old(store).wf(),
        !(old(w).tabs.tabs@[i].connection is Connected),
        call_ensures(Workspace::begin_edit, (w, target, store, &live, &config), r),
    ensures
        r.0 is Nothing,
        *final(store) == *old(store),
        final(w).large_edit_confirm == old(w).large_edit_confirm,
        final(w).tabs == old(w).tabs,
{
    lemma_shown(*old(w), i);
}

/// A selected path names a remote file of the listing.
pub open spec fn names_file(path: EntryPath, entry: FileEntry) -> bool {
    path matches EntryPath::Remote(p) && p@ == entry.path@ && !(entry.kind is Directory)
}

proof fn lemma_file_at(entries: Seq<FileEntry>, path: PathView)
    ensures
        file_at(entries, path) matches Some(f) ==> exists|k: int|
            0 <= k < entries.len() && #[trigger] entries[k] == f && f.path@ == path.text && !(
            f.kind is Directory) && path.side is Remote,
        file_at(entries, path) is None ==> forall|k: int|
            0 <= k < entries.len() ==> !(path.side is Remote && (
            #[trigger] entries[k]).path@ == path.text && !(entries[k].kind is Directory)),
    decreases entries.len(),
{
    if entries.len() > 0 && path.side is Remote && !(entries[0].path@ == path.text && !(
    entries[0].kind is Directory)) {
        let rest = entries.drop_first();
        lemma_file_at(rest, path);
        if file_at(rest, path) is Some {
            let f = file_at(rest, path)->0;
            let k = choose|k: int|
                0 <= k < rest.len() && #[trigger] rest[k] == f && f.path@ == path.text && !(
                f.kind is Directory) && path.side is Remote;
            assert(entries[k + 1] == f);
        } else {
            assert forall|k: int| 0 <= k < entries.len() implies !(path.side is Remote && (
            #[trigger] entries[k]).path@ == path.text && !(entries[k].kind is Directory)) by {
                if k > 0 {
                    assert(rest[k - 1] == entries[k]);
                }
            }
        }
    }
}

proof fn lemma_first_file(selected: Seq<PathView>, entries: Seq<FileEntry>)
    ensures
        first_file(selected, entries) matches Some(f) ==> exists|s: int, k: int|
            0 <= s < selected.len() && 0 <= k < entries.len() && #[trigger] entries[k] == f
                && f.path@ == (#[trigger] selected[s]).text && !(f.kind is Directory)
                && selected[s].side is Remote,
        first_file(selected, entries) is None ==> forall|s: int, k: int|
            0 <= s < selected.len() && 0 <= k < entries.len() ==> !((
            #[trigger] selected[s]).side is Remote && (#[trigger] entries[k]).path@
                == selected[s].text && !(entries[k].kind is Directory)),
    decreases selected.len(),
{
    if selected.len() > 0 {
        let rest = selected.drop_first();
        lemma_file_at(entries, selected[0]);
        lemma_first_file(rest, entries);
        if file_at(entries, selected[0]) is None {
            if first_file(rest, entries) is Some {
                let f = first_file(rest, entries)->0;
                let (s, k) = choose|s: int, k: int|
                    0 <= s < rest.len() && 0 <= k < entries.len() && #[trigger] entries[k] == f
                        && f.path@ == (#[trigger] rest[s]).text && !(f.kind is Directory)
                        && rest[s].side is Remote;
                assert(selected[s + 1] == rest[s]);
            } else {
                assert forall|s: int, k: int|
                    0 <= s < selected.len() && 0 <= k < entries.len() implies !((
                #[trigger] selected[s]).side is Remote && (#[trigger] entries[k]).path@
                    == selected[s].text && !(entries[k].kind is Directory)) by {
                    if s > 0 {
                        assert(rest[s - 1] == selected[s]);
                    }
                }
            }
        }
    }
}

/// What is edited is a remote file of the listing that is selected, with the size and age that it
/// is listed with; and where one is selected, one is edited.
pub proof fn law_selected_file_is_edited(w: &mut Workspace, i: int, r: Option<EditTarget>)
    requires
        shows(*old(w), i),
        call_ensures(Workspace::request_edit_selection, (w,), r),
    ensures
        ({
            let selected = old(w).tabs.tabs@[i].selected_paths@;
            let entries = old(w).tabs.tabs@[i].remote.entries@;
            &&& r matches Some(target) ==> exists|s: int, k: int|
                0 <= s < selected.len() && 0 <= k < entries.len() && names_file(
                    #[trigger] selected[s],
                    #[trigger] entries[k],
                ) && target.path == entries[k].path && target.size == entries[k].size
                    && target.modified_at == entries[k].modified_at
            &&& r is None ==> forall|s: int, k: int|
                0 <= s < selected.len() && 0 <= k < entries.len() ==> !names_file(
                    #[trigger] selected[s],
                    #[trigger] entries[k],
                )
        }),
{
    lemma_shown(*old(w), i);
    let selected = old(w).tabs.tabs@[i].selected_paths@;
    let entries = old(w).tabs.tabs@[i].remote.entries@;
    let v = views(selected);
    lemma_first_file(v, entries);
    assert forall|s: int| 0 <= s < selected.len() implies #[trigger] v[s] == selected[s]@ by {}
    if r is Some {
        let f = first_file(v, entries)->0;
        let (s, k) = choose|s: int, k: int|
            0 <= s < v.len() && 0 <= k < entries.len() && #[trigger] entries[k] == f && f.path@ == (
            #[trigger] v[s]).text && !(f.kind is Directory) && v[s].side is Remote;
        assert(v[s] == selected[s]@);
        assert(names_file(selected[s], entries[k]));
    } else {
        assert forall|s: int, k: int|
            0 <= s < selected.len() && 0 <= k < entries.len() implies !names_file(
            #[trigger] selected[s],
            #[trigger] entries[k],
        ) by {
            assert(v[s] == selected[s]@);
        }
    }
}

proof fn lemma_file_at_is(entries: Seq<FileEntry>, path: PathView, k: int)
    requires
        0 <= k < entries.len(),
        path.side is Remote,
        entries[k].path@ == path.text,
        !(entries[k].kind is Directory),
        forall|j: int|
            0 <= j < k ==> !((#[trigger] entries[j]).path@ == path.text && !(
            entries[j].kind is Directory)),
    ensures
        file_at(entries, path) == Some(entries[k]),
    decreases k,
{
    if k > 0 {
        let rest = entries.drop_first();
        assert(rest[k - 1] == entries[k]);
        assert forall|j: int| 0 <= j < k - 1 implies !((#[trigger] rest[j]).path@ == path.text && !(
        rest[j].kind is Directory)) by {
            assert(rest[j] == entries[j + 1]);
        }
        assert(!(entries[0].path@ == path.text && !(entries[0].kind is Directory)));
        lemma_file_at_is(rest, path, k - 1);
    }
}

proof fn lemma_first_file_is(
    selected: Seq<EntryPath>,
    entries: Seq<FileEntry>,
    s: int,
    k: int,
)
    requires
        0 <= s < selected.len(),
        0 <= k < entries.len(),
        names_file(selected[s], entries[k]),
        forall|j: int| 0 <= j < k ==> !names_file(selected[s], #[trigger] entries[j]),
        forall|t: int, j: int|
            0 <= t < s && 0 <= j < entries.len() ==> !names_file(
                #[trigger] selected[t],
                #[trigger] entries[j],
            ),
    ensures
        first_file(views(selected), entries) == Some(entries[k]),
    decreases s,
{
    let v = views(selected);
    assert(v[0] == selected[0]@);
    if s == 0 {
        assert forall|j: int| 0 <= j < k implies !((#[trigger] entries[j]).path@ == v[0].text && !(
        entries[j].kind is Directory)) by {
            assert(!names_file(selected[s], entries[j]));
        }
        lemma_file_at_is(entries, v[0], k);
    } else {
        lemma_file_at(entries, v[0]);
        if file_at(entries, v[0]) is Some {
            let f = file_at(entries, v[0])->0;
            let j = choose|j: int|
                0 <= j < entries.len() && #[trigger] entries[j] == f && f.path@ == v[0].text && !(
                f.kind is Directory) && v[0].side is Remote;
            assert(names_file(selected[0], entries[j]));
        }
        let rest = selected.drop_first();
        assert(views(rest) =~= v.drop_first());
        assert(rest[s - 1] == selected[s]);
        assert forall|t: int, j: int|
            0 <= t < s - 1 && 0 <= j < entries.len() implies !names_file(
            #[trigger] rest[t],
            #[trigger] entries[j],
        ) by {
            assert(rest[t] == selected[t + 1]);
        }
        lemma_first_file_is(rest, entries, s - 1, k);
    }
}

/// Of several selected files the first is edited.
pub proof fn law_first_selected_file_is_edited(
    w: &mut Workspace,
    i: int,
    s: int,
    k: int,
    r: Option<EditTarget>,
)
    requires
        shows(*old(w), i),
        0 <= s < old(w).tabs.tabs@[i].selected_paths@.len(),
        0 <= k < old(w).tabs.tabs@[i].remote.entries@.len(),
        names_file(
            old(w).tabs.tabs@[i].selected_paths@[s],
            old(w).tabs.tabs@[i].remote.entries@[k],
        ),
        forall|j: int|
            0 <= j < k ==> !names_file(
                old(w).tabs.tabs@[i].selected_paths@[s],
                #[trigger] old(w).tabs.tabs@[i].remote.entries@[j],
            ),
        forall|t: int, j: int|
            0 <= t < s && 0 <= j < old(w).tabs.tabs@[i].remote.entries@.len() ==> !names_file(
                #[trigger] old(w).tabs.tabs@[i].selected_paths@[t],
                #[trigger] old(w).tabs.tabs@[i].remote.entries@[j],
            ),
        call_ensures(Workspace::request_edit_selection, (w,), r),
    ensures
        r is Some,
        r->0.path == old(w).tabs.tabs@[i].remote.entries@[k].path,
        r->0.size == old(w).tabs.tabs@[i].remote.entries@[k].size,
        r->0.modified_at == old(w).tabs.tabs@[i].remote.entries@[k].modified_at,
        *final(w) == *old(w),
{
    lemma_shown(*old(w), i);
    lemma_first_file_is(
        old(w).tabs.tabs@[i].selected_paths@,
        old(w).tabs.tabs@[i].remote.entries@,
        s,
        k,
    );
}

/// A file whose edit was left behind by a tab that is gone is opened anew, and what that tab
/// edited is handed out to be cleaned up.
pub proof fn law_abandoned_file_is_opened_anew(
    w: &mut Workspace,
    store: &mut EditSessionStore,
    i: int,
    k: int,
    session_id: SessionId,
    epoch: u64,
    target: EditTarget,
    live: Vec<TabId>,
    config: Config,
    other: EditSession,
    r: (EditStart, Vec<EditSession>),
)
    requires
        shows(*old(w), i),
        old(store).wf(),
        old(w).tabs.tabs@[i].connection == (ConnectionState::Connected {
            session_id,
            session_epoch: epoch,
        }),
        target.size is None,
        0 <= k < old(store).sessions@.len(),
        old(store).sessions@[k].remote_path@ == target.path@,
        old(store).sessions@[k].profile_id == profile_of(old(w).tabs.tabs@[i]),
        forall|j: int|
            0 <= j < k ==> (#[trigger] old(store).sessions@[j]).remote_path@ != target.path@,
        !live@.contains(old(store).sessions@[k].tab_id),
        call_ensures(Workspace::begin_edit, (w, target, store, &live, &config), r),
    ensures
        r.0 matches EditStart::Download(pending) && pending.remote_path == target.path
            && pending.session_epoch == epoch && pending.tab_id == old(w).tabs.tabs@[i].id,
        r.1@.contains(other) <==> old(store).sessions@.contains(other) && other.tab_id
            == old(store).sessions@[k].tab_id,
        final(store).sessions@.contains(other) <==> old(store).sessions@.contains(other)
            && other.tab_id != old(store).sessions@[k].tab_id,
{
    lemma_shown(*old(w), i);
    let tab = old(w).tabs.tabs@[i];
    let meets = edits(profile_of(tab), target.path@);
    assert forall|j: int| 0 <= j < k implies !meets(#[trigger] old(store).sessions@[j]) by {}
    lemma_first_where(old(store).sessions@, meets, k);
    let gone = old(store).sessions@[k].tab_id;
    lemma_filter_holds(old(store).sessions@, of_tab(gone));
    lemma_filter_holds(old(store).sessions@, not_of_tab(gone));
}

/// The copy of a file lies in the directory of its session, under the file's own name.
pub proof fn law_copy_keeps_its_name(
    dir: &str,
    run: &str,
    id: EditSessionId,
    path: &str,
    name: Option<String>,
    r: String,
)
    requires
        call_ensures(edit_temp_path, (dir, run, id, path), r),
        call_ensures(file_name_in, (path,), name),
    ensures
        name is Some ==> r@ == dir@ + seq!['/'] + run@ + seq!['/'] + decimal(id.0 as nat) + seq![
            '/',
        ] + name->0@,
{
    reveal_strlit("/");
    assert("/"@ =~= seq!['/']);
}

/// The copies of two sessions of one run never lie at the same place.
pub proof fn law_copies_lie_apart(
    dir: &str,
    run: &str,
    a: EditSessionId,
    b: EditSessionId,
    p: &str,
    q: &str,
    x: String,
    y: String,
)
    requires
        call_ensures(edit_temp_path, (dir, run, a, p), x),
        call_ensures(edit_temp_path, (dir, run, b, q), y),
        x@ == y@,
    ensures
        a == b,
{
    reveal_strlit("/");
    let front = dir@ + "/"@ + run@ + "/"@;
    let (m, n) = (decimal(a.0 as nat), decimal(b.0 as nat));
    lemma_decimal_is_digits(a.0 as nat);
    lemma_decimal_is_digits(b.0 as nat);
    let f = front.len() as int;
    assert(x@[f + m.len()] == '/');
    assert(y@[f + n.len()] == '/');
    assert forall|k: int| 0 <= k < m.len() implies x@[f + k] == #[trigger] m[k] by {}
    assert forall|k: int| 0 <= k < n.len() implies y@[f + k] == #[trigger] n[k] by {}
    if m.len() < n.len() {
        assert(n[m.len() as int] == '/');
        assert(n.contains('/'));
    } else if n.len() < m.len() {
        assert(m[n.len() as int] == '/');
        assert(m.contains('/'));
    }
    assert(m =~= n);
    lemma_decimal_injective(a.0 as nat, b.0 as nat);
}

/// A fetch that could not be asked for leaves no session: those from before it are there, and no
/// other.
pub proof fn law_unsent_fetch_is_undone(
    store: &mut EditSessionStore,
    sent: &mut EditSessionStore,
    w: &mut Workspace,
    pending: PendingEdit,
    dir: &str,
    run: &str,
    started: (EditSessionId, crate::model::StartTransferCommand),
    outcome: Dispatch,
    dropped: Option<EditSession>,
)
    requires
        old(store).wf(),
        call_ensures(
            EditSessionStore::start_edit_download,
            (store, &pending, dir, run),
            started,
        ),
        *old(sent) == *final(store),
        call_ensures(Workspace::edit_download_sent, (w, started.0, sent, outcome), dropped),
    ensures
        outcome is Sent ==> final(sent).sessions@ == final(store).sessions@ && dropped is None,
        !(outcome is Sent) ==> {
            &&& final(sent).sessions@ == old(store).sessions@
            &&& dropped is Some
            &&& dropped->0.id == started.0
            &&& dropped->0.remote_path@ == pending.remote_path@
        },
{
    let all = final(store).sessions@;
    let n = old(store).sessions@.len() as int;
    assert(all.last() == all[n]);
    assert forall|j: int| 0 <= j < n implies (#[trigger] all[j]).id != started.0 by {
        assert(all.drop_last()[j] == old(store).sessions@[j]);
        assert(old(store).sessions@[j].id.0 < old(store).next_id);
    }
    crate::edit_sessions::lemma_session_index_is(all, started.0, n);
    assert(all.remove(n) =~= all.drop_last());
}

/// Finding the session that edits a file finds one that does, and none only where none does.
pub proof fn law_edited_file_is_found(
    store: EditSessionStore,
    profile_id: ProfileId,
    path: &str,
    r: Option<usize>,
    i: int,
)
    requires
        call_ensures(EditSessionStore::find_active, (&store, profile_id, path), r),
        0 <= i < store.sessions@.len(),
    ensures
        r matches Some(k) ==> k < store.sessions@.len() && store.sessions@[k as int].remote_path@
            == path@ && store.sessions@[k as int].profile_id == profile_id,
        r is None ==> store.sessions@[i].remote_path@ != path@ || store.sessions@[i].profile_id
            != profile_id,
{
    let meets = edits(profile_id, path@);
    lemma_first_where_bound(store.sessions@, meets);
    if r is None && meets(store.sessions@[i]) {
        lemma_none_before(store.sessions@, meets, i);
    }
}

proof fn lemma_none_before(sessions: Seq<EditSession>, meets: spec_fn(EditSession) -> bool, i: int)
    requires
        0 <= i < sessions.len(),
        meets(sessions[i]),
    ensures
        crate::edit_sessions::first_where(sessions, meets) <= i,
    decreases sessions.len(),
{
    if i > 0 && !meets(sessions[0]) {
        assert(sessions.drop_first()[i - 1] == sessions[i]);
        lemma_none_before(sessions.drop_first(), meets, i - 1);
    }
}

/// The change that the user of a tab is asked about is one under an edit of that tab, and there is
/// a question wherever there is such a change.
pub proof fn law_changed_file_is_asked_about(
    store: EditSessionStore,
    tab_id: TabId,
    r: Option<EditSessionId>,
    i: int,
)
    requires
        call_ensures(EditSessionStore::conflict_for_tab, (&store, tab_id), r),
        0 <= i < store.sessions@.len(),
    ensures
        r matches Some(id) ==> exists|k: int|
            0 <= k < store.sessions@.len() && (#[trigger] store.sessions@[k]).id == id
                && store.sessions@[k].tab_id == tab_id && store.sessions@[k].phase is RemoteConflict,
        r is None ==> store.sessions@[i].tab_id != tab_id || !(
        store.sessions@[i].phase is RemoteConflict),
{
    let meets = crate::edit_sessions::conflicts_in(tab_id);
    lemma_first_where_bound(store.sessions@, meets);
    if r is None && meets(store.sessions@[i]) {
        lemma_none_before(store.sessions@, meets, i);
    }
}

}
