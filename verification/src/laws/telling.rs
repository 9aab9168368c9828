//! The words in which the client tells what happened.

use vstd::prelude::*;

use super::common::{lemma_shown, shows};
use super::hearing::is_of;
use crate::about::{is_semver, theme_for, version_info, version_label, ThemeChoice};
use crate::assets::{icon_names, law_every_icon_is_found, Assets, IconName};
use crate::drawer_view::{group_positions, DrawerView, JobGroup};
use crate::events::{AppEvent, EventStep, FsFailure, RemoteFailure};
use crate::file_ops::{
    delete_confirm_presentation, display_name, failure_title, DeleteConfirmPresentation,
};
use crate::helpers::{endpoint_text, format_recent_label};
use crate::model::{
    ConnectionState, Dispatch, FsEntryRef, FsOp, FsScope, HostKeyMismatch, RecentEntry,
    TransferJob,
};
use crate::pane_view::{drag_label, FilterBar};
use crate::rate_sampler::{
    format_eta, format_running_detail, format_speed, RateSnapshot, TransferRateBook,
};
use crate::text::{decimal, file_name_in};
use crate::workspace::{AppearancePreference, Config, Workspace};

verus! {

/// A command that was taken is not spoken of; one that was not is told, whether it can be tried
/// again or not.
pub proof fn law_untaken_command_is_told(w: &mut Workspace, outcome: Dispatch, r: bool)
    requires
        call_ensures(Workspace::note_dispatch, (w, outcome), r),
    ensures
        r <==> outcome is Sent,
        outcome is Sent ==> *final(w) == *old(w),
        outcome is ChannelFull ==> final(w).status_message is Some
            && final(w).status_message->0@ == "Busy — try again in a moment."@,
        outcome is ChannelClosed ==> final(w).status_message is Some
            && final(w).status_message->0@ == "Connection service is unavailable."@,
        final(w).tabs == old(w).tabs,
{
}

/// What failed is told by its title and then what happened.
pub proof fn law_failure_is_told_by_its_title(
    a: &mut Workspace,
    b: &mut Workspace,
    i: int,
    remote: RemoteFailure,
    failure: FsFailure,
    r: EventStep,
    s: EventStep,
)
    requires
        is_of(*old(a), i, remote.scope),
        call_ensures(
            Workspace::handle_app_event,
            (a, AppEvent::RemoteOperationFailed(remote)),
            r,
        ),
        old(b).wf(),
        0 <= i < old(b).tabs.tabs@.len(),
        failure.scope == (FsScope::Local { tab_id: old(b).tabs.tabs@[i].id }),
        call_ensures(Workspace::handle_app_event, (b, AppEvent::FsOperationFailed(failure)), s),
    ensures
        final(a).status_message is Some,
        final(a).status_message->0@ == remote.error.title@ + seq![':', ' ']
            + remote.error.message@,
        final(b).status_message is Some,
        final(b).status_message->0@ == failure.failure.title@ + seq![':', ' ']
            + failure.failure.message@,
{
    super::common::lemma_tab_at(old(a).tabs.tabs@, i);
    super::common::lemma_tab_at(old(b).tabs.tabs@, i);
    reveal_strlit(": ");
    assert(": "@ =~= seq![':', ' ']);
}

/// A host key that is not the stored one is told with the key that was expected and then the one
/// that came, and with the host.
pub proof fn law_mismatch_tells_both_keys(
    w: &mut Workspace,
    i: int,
    mismatch: HostKeyMismatch,
    r: EventStep,
)
    requires
        is_of(*old(w), i, mismatch.scope),
        call_ensures(Workspace::handle_app_event, (w, AppEvent::HostKeyMismatch(mismatch)), r),
    ensures
        final(w).tabs.tabs@[i].connection matches ConnectionState::Failed { error } && {
            &&& error.detail is Some
            &&& mismatch.expected_fingerprint_sha256 matches Some(expected) ==> (
            "Expected "@ + expected@ + ", got "@ + mismatch.actual_fingerprint_sha256@).is_prefix_of(
                error.detail->0@,
            )
            &&& ("The key presented by "@ + mismatch.host@ + ":"@ + decimal(
                mismatch.port as nat,
            )).is_prefix_of(error.message@)
        },
{
    super::common::lemma_tab_at(old(w).tabs.tabs@, i);
    let error = final(w).tabs.tabs@[i].connection->error;
    let text = "The key presented by "@ + mismatch.host@ + ":"@ + decimal(mismatch.port as nat);
    assert(text.is_prefix_of(error.message@));
    if mismatch.expected_fingerprint_sha256 is Some {
        let both = "Expected "@ + mismatch.expected_fingerprint_sha256->0@ + ", got "@
            + mismatch.actual_fingerprint_sha256@;
        assert(both.is_prefix_of(error.detail->0@));
    }
}

/// The question before deleting names the one entry, or says how many there are, and warns of
/// folders.
pub proof fn law_delete_question_says_what_is_lost(
    slice: &[FsEntryRef],
    t: &str,
    name: String,
    r: DeleteConfirmPresentation,
)
    requires
        slice@.len() > 0,
        t@ == slice@[0].path@.text,
        call_ensures(display_name, (t,), name),
        call_ensures(delete_confirm_presentation, (slice,), r),
    ensures
        slice@.len() == 1 ==> r.title@ == "Delete “"@ + name@ + "”?"@,
        slice@.len() > 1 ==> r.title@ == "Delete "@ + decimal(slice@.len()) + " items?"@,
        r.names@[0].name@ == name@,
        slice@.len() == 1 && slice@[0].is_dir ==> r.risk_message@
            == "This folder and all of its contents will be permanently deleted."@,
        slice@.len() == 1 && !slice@[0].is_dir ==> r.risk_message@
            == "This item will be permanently deleted."@,
        slice@.len() > 1 && (forall|k: int|
            0 <= k < slice@.len() ==> !(#[trigger] slice@[k]).is_dir) ==> r.risk_message@
            == "These items will be permanently deleted."@,
{
    let entries = slice@;
    if entries.len() == 1 {
        reveal_with_fuel(crate::file_ops::directory_count, 2);
        assert(entries.drop_last() =~= Seq::<FsEntryRef>::empty());
    }
    if forall|k: int| 0 <= k < entries.len() ==> !(#[trigger] entries[k]).is_dir {
        lemma_no_directories(entries);
    }
}

proof fn lemma_no_directories(entries: Seq<FsEntryRef>)
    requires
        forall|k: int| 0 <= k < entries.len() ==> !(#[trigger] entries[k]).is_dir,
    ensures
        crate::file_ops::directory_count(entries) == 0,
    decreases entries.len(),
{
    if entries.len() > 0 {
        let front = entries.drop_last();
        assert forall|k: int| 0 <= k < front.len() implies !(#[trigger] front[k]).is_dir by {
            assert(front[k] == entries[k]);
        }
        lemma_no_directories(front);
        assert(!entries[entries.len() - 1].is_dir);
    }
}

/// A path is shown and dragged under its file name.
pub proof fn law_paths_are_shown_by_name(
    t: &str,
    path: crate::model::EntryPath,
    name: Option<String>,
    shown: String,
    dragged: String,
)
    requires
        t@ == path@.text,
        call_ensures(file_name_in, (t,), name),
        call_ensures(display_name, (t,), shown),
        call_ensures(drag_label, (&path,), dragged),
    ensures
        name is Some ==> shown@ == name->0@ && dragged@ == name->0@,
        name is None ==> shown@ == t@,
{
}

/// What could not be done is told by what it was.
pub proof fn law_failures_have_their_own_titles(
    entries: Vec<FsEntryRef>,
    from: crate::model::EntryPath,
    to: crate::model::EntryPath,
    name: String,
    a: &'static str,
    b: &'static str,
    c: &'static str,
)
    requires
        call_ensures(failure_title, (&FsOp::Delete { entries },), a),
        call_ensures(failure_title, (&FsOp::Rename { from, to },), b),
        call_ensures(failure_title, (&FsOp::CreateDirectory { parent: from, name },), c),
    ensures
        a@ == "Could not delete"@,
        b@ == "Could not rename"@,
        c@ == "Could not create folder"@,
{
}

/// A recent connection is listed under its name, where it has one, and where it leads.
pub proof fn law_recent_is_listed_by_where_it_leads(
    entry: RecentEntry,
    u: &str,
    h: &str,
    place: String,
    r: String,
)
    requires
        u@ == entry.username@,
        h@ == entry.host@,
        call_ensures(endpoint_text, (u, h, entry.port), place),
        call_ensures(format_recent_label, (&entry,), r),
    ensures
        entry.display_name is None ==> r@ == place@,
        entry.display_name matches Some(name) ==> {
            &&& name@.len() > 0 ==> r@ == name@ + " · "@ + place@
            &&& name@.len() == 0 ==> r@ == place@
        },
{
}

/// The line below a running transfer tells how much of how much is there, how fast and how long
/// still; a stalled one is just said to be.
pub proof fn law_running_line_tells_the_state(
    done: &str,
    total: &str,
    state: RateSnapshot,
    speed: String,
    time: String,
    r: String,
    s: String,
)
    requires
        call_ensures(format_speed, (state.speed,), speed),
        call_ensures(format_eta, (state.eta,), time),
        call_ensures(format_running_detail, (done, Some(total), &state), r),
        call_ensures(format_running_detail, (done, None, &state), s),
    ensures
        state.stalled ==> r@ == done@ + " / "@ + total@ + " · Stalled"@ && s@ == done@
            + " · Stalled"@,
        !state.stalled ==> r@ == done@ + " / "@ + total@ + " · "@ + speed@ + " · ETA "@ + time@
            && s@ == done@ + " · "@ + speed@,
{
}

/// The headline of the drawer counts the transfers of each group.
pub proof fn law_drawer_counts_the_transfers(
    w: Workspace,
    jobs: Vec<TransferJob>,
    count: usize,
    rates: TransferRateBook,
    now: u64,
    active: Vec<usize>,
    queued: Vec<usize>,
    completed: Vec<usize>,
    failed: Vec<usize>,
    r: DrawerView,
)
    requires
        call_ensures(group_positions, (&jobs, JobGroup::Active), active),
        call_ensures(group_positions, (&jobs, JobGroup::Queued), queued),
        call_ensures(group_positions, (&jobs, JobGroup::Completed), completed),
        call_ensures(group_positions, (&jobs, JobGroup::Failed), failed),
        call_ensures(Workspace::drawer_view, (&w, &jobs, count, &rates, now), r),
    ensures
        (decimal(active@.len()) + " active · "@ + decimal(queued@.len()) + " queued · "@ + decimal(
            completed@.len(),
        ) + " done · "@ + decimal(failed@.len()) + " failed"@).is_prefix_of(r.summary@),
        r.empty <==> jobs@.len() == 0 && count == 0,
{
    let counts = decimal(active@.len()) + " active · "@ + decimal(queued@.len()) + " queued · "@
        + decimal(completed@.len()) + " done · "@ + decimal(failed@.len()) + " failed"@;
    assert(counts.is_prefix_of(r.summary@));
}

/// The filter bar tells how many entries match, of how many.
pub proof fn law_filter_bar_counts(bar: FilterBar, r: String)
    requires
        call_ensures(FilterBar::count_label, (&bar,), r),
    ensures
        r@ == "· "@ + decimal(bar.matched as nat) + "/"@ + decimal(bar.total as nat),
{
}

/// The window is called after the tab that it shows.
pub proof fn law_window_is_called_after_its_tab(w: Workspace, i: int, r: String)
    requires
        shows(w, i),
        call_ensures(Workspace::title, (&w,), r),
    ensures
        w.tabs.tabs@[i].title@.len() > 0 ==> w.tabs.tabs@[i].title@.is_prefix_of(r@)
            && r@ != w.tabs.tabs@[i].title@,
        w.tabs.tabs@[i].title@.len() == 0 ==> r@ == "macSFTP"@,
{
    lemma_shown(w, i);
    reveal_strlit(" — macSFTP");
    let title = w.tabs.tabs@[i].title@;
    if title.len() > 0 {
        assert(title.is_prefix_of(r@));
        assert(r@.len() > title.len());
    }
}

/// A version is three numbers with dots between them.
pub proof fn law_version_is_three_numbers(
    version: &str,
    arch: &str,
    i: int,
    j: int,
    r: bool,
    info: String,
    label: String,
)
    requires
        call_ensures(is_semver, (version,), r),
        call_ensures(version_info, (version, arch), info),
        call_ensures(version_label, (version,), label),
    ensures
        0 < i && i + 1 < j && j + 1 < version@.len() && version@[i] == '.' && version@[j] == '.' && (
        forall|k: int|
            0 <= k < version@.len() && k != i && k != j ==> '0' <= (#[trigger] version@[k])
                <= '9') ==> r,
        r ==> version@.len() >= 5 && '0' <= version@[0] <= '9',
        info@ == "macSFTP "@ + version@ + " ("@ + arch@ + ")"@,
        label@ == "Version "@ + version@,
{
    if 0 < i && i + 1 < j && j + 1 < version@.len() && version@[i] == '.' && version@[j] == '.' && (
    forall|k: int|
        0 <= k < version@.len() && k != i && k != j ==> '0' <= (#[trigger] version@[k]) <= '9') {
        assert(crate::about::dots_at(version@, i, j));
    }
    if r {
        let (a, b) = choose|a: int, b: int| crate::about::dots_at(version@, a, b);
        assert(crate::about::is_digit(version@[0]));
    }
}

/// The window takes the colours that were chosen, and hidden files are turned over.
pub proof fn law_choices_are_carried_out(
    w: &mut Workspace,
    appearance: AppearancePreference,
    saved: bool,
    config: Config,
    r: ThemeChoice,
    t: ThemeChoice,
    hidden: bool,
)
    requires
        call_ensures(Workspace::set_appearance, (w, appearance, saved), r),
        call_ensures(theme_for, (appearance,), t),
        call_ensures(Workspace::toggle_hidden_files, (&*old(w), &config), hidden),
    ensures
        r == t,
        appearance is System <==> r is FollowSystem,
        appearance is Light <==> r is OneLight,
        appearance is Dark <==> r is OneDark,
        saved <==> final(w).config_error is None,
        hidden != config.show_hidden_files,
{
}

/// Every icon is found at its path.
pub proof fn law_icons_are_found_at_their_paths(
    icon: IconName,
    path: &'static str,
    t: &str,
    assets: Assets,
    r: Option<IconName>,
    all: Vec<IconName>,
)
    requires
        call_ensures(IconName::path, (icon,), path),
        t@ == path@,
        call_ensures(Assets::load, (&assets, t), r),
        call_ensures(icon_names, (), all),
    ensures
        r == Some(icon),
        all@.contains(icon),
        all@.len() == 16,
{
    law_every_icon_is_found(icon);
    assert(all@.contains(icon)) by {
        let s = all@;
        assert(s[0] is Plus && s[1] is Close && s[2] is ArrowUp && s[3] is Refresh && s[4] is Copy);
        assert(s[5] is Upload && s[6] is Download && s[7] is Folder && s[8] is File);
        assert(s[9] is Symlink && s[10] is Trash && s[11] is ChevronDown && s[12] is ChevronLeft);
        assert(s[13] is ChevronRight && s[14] is Transfers && s[15] is Server);
    }
}

}
