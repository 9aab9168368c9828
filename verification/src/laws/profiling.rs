//! Saved profiles: finding, editing, saving and deleting them.

use vstd::prelude::*;

use super::connecting::{is_first, is_tidy, lemma_found};
use super::selecting::{lemma_reads, reads_at};
use super::texts::lemma_decimal_reads_back;
use crate::connect_actions::ProfileRemoval;
use crate::connect_form::{port_of, FormError};
use crate::helpers::expand_home;
use crate::keys::Keystroke;
use crate::lists::lemma_filter_holds;
use crate::model::{AuthMethod, ConnectionProfile, ProfileId};
use crate::profiles::{
    filtered_profiles, law_editor_focus_returns, law_next_profile_id_is_fresh, matching,
    next_profile_id, profile_list_label, profile_matches_filter, ProfileAuthUpdate,
    ProfileEditorField, ProfileEditorState, ProfileSaveRequest, SaveRefusal,
};
use crate::settings_actions::{EditorKey, ProfileSaved};
use crate::text::{all_ascii, trim};
use crate::workspace::Workspace;

verus! {

/// A profile that is chosen, not changed and saved is saved as it was: under its id, with its
/// name, host, port, user and directory, and with the secrets that are stored.
pub proof fn law_unchanged_profile_saves_as_it_was(
    a: &mut Workspace,
    b: &mut Workspace,
    profiles: Vec<ConnectionProfile>,
    k: int,
    secret_present: bool,
    home: Option<&str>,
    h: &str,
    host: String,
    u: &str,
    user: String,
    n: &str,
    name: String,
    d: &str,
    dir: String,
    p: &str,
    cut: String,
    key: String,
    r: Option<ProfileSaveRequest>,
)
    requires
        is_first(profiles@, k),
        is_tidy(profiles@[k], h, host, u, user),
        n@ == profiles@[k].name@,
        n@.len() > 0,
        call_ensures(trim, (n,), name),
        name@ == n@,
        profiles@[k].default_remote_path matches Some(path) ==> {
            &&& d@ == path@
            &&& d@.len() > 0
            &&& call_ensures(trim, (d,), dir)
            &&& dir@ == d@
        },
        profiles@[k].default_remote_path is None ==> {
            &&& d@.len() == 0
            &&& call_ensures(trim, (d,), dir)
            &&& dir@ == d@
        },
        profiles@[k].auth matches AuthMethod::PrivateKey { key_path } ==> {
            &&& p@ == key_path@
            &&& p@.len() > 0
            &&& call_ensures(trim, (p,), cut)
            &&& cut@ == p@
            &&& call_ensures(expand_home, (p, home), key)
            &&& key@ == p@
        },
        call_ensures(
            Workspace::select_profile_in_settings,
            (a, profiles@[k].id, &profiles, secret_present),
            (),
        ),
        *old(b) == *final(a),
        call_ensures(Workspace::save_profile_editor, (b, &profiles, home), r),
    ensures
        final(a).selected_profile_id == Some(profiles@[k].id),
        final(a).profile_editor is Some,
        final(a).profile_editor->0.host@ == profiles@[k].host@,
        final(a).profile_editor->0.password@.len() == 0,
        final(a).profile_editor->0.passphrase@.len() == 0,
        final(a).profile_editor->0.secret_present_hint == secret_present,
        r matches Some(request) && {
            &&& request.profile_id == profiles@[k].id
            &&& request.name@ == profiles@[k].name@
            &&& request.host@ == profiles@[k].host@
            &&& request.port == profiles@[k].port
            &&& request.username@ == profiles@[k].username@
            &&& match profiles@[k].default_remote_path {
                Some(path) => request.default_remote_path is Some
                    && request.default_remote_path->0@ == path@,
                None => request.default_remote_path is None,
            }
            &&& match profiles@[k].auth {
                AuthMethod::Password => request.auth == (ProfileAuthUpdate::Password {
                    password: None,
                }),
                AuthMethod::PrivateKey { key_path } => {
                    &&& request.auth matches ProfileAuthUpdate::PrivateKey {
                        key_path: path,
                        passphrase,
                    }
                    &&& path@ == key_path@
                    &&& passphrase is None
                },
            }
        },
{
    lemma_found(profiles@, k);
    lemma_decimal_reads_back(profiles@[k].port as nat);
    let editor = final(a).profile_editor->0;
    if profiles@[k].default_remote_path is None {
        assert(editor.default_remote_path@ =~= d@);
    }
}

/// What is typed in the editor is what is saved, without the white space round it; secrets are
/// saved as they are typed. A profile without a name is called after its user and host.
pub proof fn law_typed_profile_is_saved(
    editor: ProfileEditorState,
    profiles: Vec<ConnectionProfile>,
    home: Option<&str>,
    h: &str,
    host: String,
    q: &str,
    port: Option<u16>,
    u: &str,
    user: String,
    n: &str,
    name: String,
    d: &str,
    dir: String,
    p: &str,
    cut: String,
    c: &str,
    key: String,
    r: Result<ProfileSaveRequest, SaveRefusal>,
)
    requires
        h@ == editor.host@,
        call_ensures(trim, (h,), host),
        q@ == editor.port@,
        call_ensures(port_of, (q,), port),
        u@ == editor.username@,
        call_ensures(trim, (u,), user),
        n@ == editor.name@,
        call_ensures(trim, (n,), name),
        d@ == editor.default_remote_path@,
        call_ensures(trim, (d,), dir),
        p@ == editor.key_path@,
        call_ensures(trim, (p,), cut),
        c@ == cut@,
        call_ensures(expand_home, (c, home), key),
        call_ensures(ProfileEditorState::save_request, (&editor, &profiles, home), r),
    ensures
        host@.len() == 0 ==> r == Err::<ProfileSaveRequest, SaveRefusal>(
            SaveRefusal::Form(FormError::HostRequired),
        ),
        host@.len() > 0 && port is None ==> r == Err::<ProfileSaveRequest, SaveRefusal>(
            SaveRefusal::Form(FormError::PortInvalid),
        ),
        host@.len() > 0 && port is Some && user@.len() == 0 ==> r == Err::<
            ProfileSaveRequest,
            SaveRefusal,
        >(SaveRefusal::Form(FormError::UsernameRequired)),
        r is Ok ==> {
            &&& host@.len() > 0 && user@.len() > 0
            &&& r->Ok_0.host@ == host@
            &&& Some(r->Ok_0.port) == port
            &&& r->Ok_0.username@ == user@
            &&& name@.len() > 0 ==> r->Ok_0.name@ == name@
            &&& name@.len() == 0 ==> r->Ok_0.name@ == user@ + seq!['@'] + host@
            &&& dir@.len() == 0 ==> r->Ok_0.default_remote_path is None
            &&& dir@.len() > 0 ==> r->Ok_0.default_remote_path is Some
                && r->Ok_0.default_remote_path->0@ == dir@
            &&& editor.auth_method is Password ==> {
                &&& r->Ok_0.auth matches ProfileAuthUpdate::Password { password }
                &&& editor.password@.len() > 0 ==> password is Some && password->0@
                    == editor.password@
                &&& editor.password@.len() == 0 ==> password is None
            }
            &&& editor.auth_method is PrivateKey ==> {
                &&& key@.len() > 0
                &&& r->Ok_0.auth matches ProfileAuthUpdate::PrivateKey { key_path, passphrase }
                &&& key_path@ == key@
                &&& editor.passphrase@.len() > 0 ==> passphrase is Some && passphrase->0@
                    == editor.passphrase@
                &&& editor.passphrase@.len() == 0 ==> passphrase is None
            }
        },
        host@.len() > 0 && port is Some && user@.len() > 0 && editor.auth_method is PrivateKey
            && key@.len() == 0 && r is Err ==> r->Err_0 == SaveRefusal::Form(
            FormError::KeyPathRequired,
        ) || r->Err_0 is NoFreeId,
        host@.len() > 0 && port is Some && user@.len() > 0 && (editor.auth_method is Password
            || key@.len() > 0) && profiles@.len() == 0 ==> r is Ok,
{
    reveal_strlit("@");
    assert("@"@ =~= seq!['@']);
}

/// A new profile is saved under an id that is larger than those in use.
pub proof fn law_new_profile_gets_a_new_id(
    editor: ProfileEditorState,
    profiles: Vec<ConnectionProfile>,
    home: Option<&str>,
    i: int,
    r: Result<ProfileSaveRequest, SaveRefusal>,
    next: Option<ProfileId>,
)
    requires
        editor.is_new,
        0 <= i < profiles@.len(),
        call_ensures(ProfileEditorState::save_request, (&editor, &profiles, home), r),
        call_ensures(next_profile_id, (&profiles,), next),
    ensures
        r is Ok ==> r->Ok_0.profile_id.0 > profiles@[i].id.0,
        next is Some ==> next->0 .0 > profiles@[i].id.0,
        next is None ==> exists|j: int|
            0 <= j < profiles@.len() && (#[trigger] profiles@[j]).id.0 == u64::MAX,
{
    law_next_profile_id_is_fresh(profiles@, i);
    if next is None {
        lemma_largest(profiles@);
    }
}

proof fn lemma_largest(profiles: Seq<ConnectionProfile>)
    requires
        profiles.len() > 0,
    ensures
        exists|j: int|
            0 <= j < profiles.len() && (#[trigger] profiles[j]).id.0 as int
                == crate::profiles::largest_id(profiles),
    decreases profiles.len(),
{
    let front = profiles.drop_last();
    let last = profiles.len() - 1;
    if profiles.last().id.0 > crate::profiles::largest_id(front) {
        assert(profiles[last].id.0 as int == crate::profiles::largest_id(profiles));
    } else if front.len() > 0 {
        lemma_largest(front);
        let j = choose|j: int|
            0 <= j < front.len() && (#[trigger] front[j]).id.0 as int
                == crate::profiles::largest_id(front);
        assert(profiles[j].id.0 as int == crate::profiles::largest_id(profiles));
    } else {
        assert(profiles[last].id.0 as int == crate::profiles::largest_id(profiles));
    }
}

/// Text that is put into a field of the editor is in that field, and the others stay.
pub proof fn law_editor_fields_hold_what_is_put_in(
    editor: &mut ProfileEditorState,
    field: ProfileEditorField,
    text: String,
)
    requires
        call_ensures(ProfileEditorState::set_field, (editor, field, text), ()),
    ensures
        final(editor).name == (if field is Name {
            text
        } else {
            old(editor).name
        }),
        final(editor).host == (if field is Host {
            text
        } else {
            old(editor).host
        }),
        final(editor).port == (if field is Port {
            text
        } else {
            old(editor).port
        }),
        final(editor).username == (if field is Username {
            text
        } else {
            old(editor).username
        }),
        final(editor).password == (if field is Password {
            text
        } else {
            old(editor).password
        }),
        final(editor).key_path == (if field is KeyPath {
            text
        } else {
            old(editor).key_path
        }),
        final(editor).passphrase == (if field is Passphrase {
            text
        } else {
            old(editor).passphrase
        }),
        final(editor).default_remote_path == (if field is DefaultRemotePath {
            text
        } else {
            old(editor).default_remote_path
        }),
        final(editor).profile_id == old(editor).profile_id,
        final(editor).is_new == old(editor).is_new,
        final(editor).auth_method == old(editor).auth_method,
        final(editor).focused_field == old(editor).focused_field,
{
}

/// What is typed goes into the field that has the focus; the tab key goes to the next field, and
/// with shift to the one before; enter saves.
pub proof fn law_editor_takes_keys(
    a: &mut ProfileEditorState,
    b: &mut ProfileEditorState,
    stroke: Keystroke,
    text: String,
    r: EditorKey,
)
    requires
        call_ensures(ProfileEditorState::take_key, (a, &stroke, Some(text)), r),
        *old(b) == *old(a),
        call_ensures(ProfileEditorState::set_field, (b, old(a).focused_field, text), ()),
    ensures
        stroke.key@ != "enter"@ && stroke.key@ != "tab"@ ==> {
            &&& r is Edited
            &&& *final(a) == (ProfileEditorState { error: None, ..*final(b) })
        },
        stroke.key@ == "tab"@ ==> r is Moved && *final(a) == (ProfileEditorState {
            focused_field: final(a).focused_field,
            ..*old(a)
        }),
        stroke.key@ == "enter"@ && !stroke.modifiers.shift && !stroke.modifiers.control
            && !stroke.modifiers.alt && !stroke.modifiers.platform && !stroke.modifiers.function
            ==> r is Save && *final(a) == *old(a),
{
    reveal_strlit("enter");
    reveal_strlit("tab");
    assert("enter"@[0] != "tab"@[0]);
}

/// The fields take the focus in the order in which they are shown, round the ends, and the way
/// back is the way there.
pub proof fn law_editor_focus_goes_in_order(
    a: &mut ProfileEditorState,
    b: &mut ProfileEditorState,
    order: Vec<ProfileEditorField>,
    k: int,
)
    requires
        call_ensures(ProfileEditorState::field_order, (&*old(a),), order),
        0 <= k < order@.len(),
        old(a).focused_field == order@[k],
        call_ensures(ProfileEditorState::cycle_focus, (a, false), ()),
        *old(b) == *final(a),
        call_ensures(ProfileEditorState::cycle_focus, (b, true), ()),
    ensures
        order@[0] is Name && order@[1] is Host && order@[2] is Port && order@[3] is Username,
        order@.last() is DefaultRemotePath,
        old(a).auth_method is Password ==> order@.len() == 6 && order@[4] is Password,
        old(a).auth_method is PrivateKey ==> order@.len() == 7 && order@[4] is KeyPath
            && order@[5] is Passphrase,
        k + 1 < order@.len() ==> final(a).focused_field == order@[k + 1],
        k + 1 == order@.len() ==> final(a).focused_field == order@[0],
        *final(b) == *old(a),
{
    reveal_with_fuel(crate::profiles::editor_field_position, 8);
    assert(order@.contains(order@[k]));
    law_editor_focus_returns(old(a).auth_method, order@[k]);
    let rest = order@.drop_first();
    lemma_field_position(order@, k);
    let n = order@.len() as int;
    if k + 1 < n {
        vstd::arithmetic::div_mod::lemma_small_mod((k + 1) as nat, n as nat);
    } else {
        vstd::arithmetic::div_mod::lemma_mod_self_0(n);
    }
}

proof fn lemma_field_position(order: Seq<ProfileEditorField>, k: int)
    requires
        0 <= k < order.len(),
        forall|a: int, b: int| 0 <= a < b < order.len() ==> order[a] != order[b],
    ensures
        crate::profiles::editor_field_position(order, order[k]) == k,
    decreases order.len(),
{
    if k > 0 {
        let rest = order.drop_first();
        assert(rest[k - 1] == order[k]);
        assert(rest.contains(order[k]));
        assert forall|a: int, b: int| 0 <= a < b < rest.len() implies rest[a] != rest[b] by {
            assert(rest[a] == order[a + 1] && rest[b] == order[b + 1]);
        }
        lemma_field_position(rest, k - 1);
        assert(order[0] != order[k]);
    }
}

/// A profile is found by any part of its name, host or user, in large or small letters; a blank
/// filter finds all. What is found stands in its order.
pub proof fn law_profiles_are_found(
    profile: ConnectionProfile,
    query: &str,
    blank: String,
    found: bool,
    profiles: Vec<ConnectionProfile>,
    r: Vec<ConnectionProfile>,
)
    requires
        all_ascii(profile.name@),
        all_ascii(profile.host@),
        all_ascii(profile.username@),
        all_ascii(query@),
        call_ensures(trim, (query,), blank),
        call_ensures(profile_matches_filter, (&profile, query), found),
        call_ensures(filtered_profiles, (&profiles, query), r),
    ensures
        found <==> blank@.len() == 0 || (exists|at: int| reads_at(query@, profile.name@, at)) || (
        exists|at: int| reads_at(query@, profile.host@, at)) || (exists|at: int|
            reads_at(query@, profile.username@, at)),
        r@.contains(profile) <==> profiles@.contains(profile) && found,
        r@.len() <= profiles@.len(),
{
    lemma_reads(profile.name@, query@);
    lemma_reads(profile.host@, query@);
    lemma_reads(profile.username@, query@);
    lemma_filter_holds(profiles@, matching(query@));
    profiles@.lemma_filter_len(matching(query@));
}

/// A profile is listed under its name and where it connects to.
pub proof fn law_profile_is_listed_under_its_name(
    profile: ConnectionProfile,
    u: &str,
    h: &str,
    text: String,
    r: String,
)
    requires
        call_ensures(profile_list_label, (&profile,), r),
        u@ == profile.username@,
        h@ == profile.host@,
        call_ensures(crate::helpers::endpoint_text, (u, h, profile.port), text),
    ensures
        r@ == profile.name@ + seq![' ', '·', ' '] + text@,
{
    reveal_strlit(" · ");
    assert(" · "@ =~= seq![' ', '·', ' ']);
}

/// A profile that was deleted is referred to nowhere: by no tab, by no form, and the settings do
/// not show it. One that could not be deleted stays.
pub proof fn law_deleted_profile_is_forgotten(
    w: &mut Workspace,
    id: ProfileId,
    profiles: Vec<ConnectionProfile>,
    secret_present: bool,
    removal: ProfileRemoval,
    i: int,
)
    requires
        old(w).wf(),
        old(w).profile_delete_confirm == Some(id),
        0 <= i < old(w).tabs.tabs@.len(),
        removal is Deleted ==> forall|k: int|
            0 <= k < profiles@.len() ==> (#[trigger] profiles@[k]).id != id,
        call_ensures(
            Workspace::confirm_delete_profile,
            (w, &removal, &profiles, secret_present),
            (),
        ),
    ensures
        final(w).profile_delete_confirm is None,
        final(w).tabs.tabs@.len() == old(w).tabs.tabs@.len(),
        final(w).tabs.tabs@[i].id == old(w).tabs.tabs@[i].id,
        final(w).tabs.tabs@[i].connection_settings == old(w).tabs.tabs@[i].connection_settings,
        removal is Deleted ==> {
            &&& final(w).tabs.tabs@[i].profile_id != Some(id)
            &&& final(w).tabs.tabs@[i].restored_target matches Some(target) ==> target.profile_id
                != Some(id)
            &&& final(w).connect_form matches Some(form) ==> form.source_profile_id != Some(id)
            &&& final(w).selected_profile_id != Some(id)
            &&& old(w).tabs.tabs@[i].profile_id != Some(id) ==> final(w).tabs.tabs@[i].profile_id
                == old(w).tabs.tabs@[i].profile_id
        },
        removal is Failed ==> {
            &&& final(w).tabs == old(w).tabs
            &&& final(w).connect_form == old(w).connect_form
        },
{
    let gone = choose|gone: Workspace| #[trigger]
        crate::connect_actions::profile_removed(
            crate::settings_actions::unasked(*old(w)),
            gone,
            id,
            removal,
        ) && crate::settings_actions::reshown(gone, *final(w), id, profiles@, secret_present);
    if removal is Deleted {
        crate::settings_actions::law_deleted_profile_is_not_shown(
            gone,
            *final(w),
            id,
            profiles@,
            secret_present,
        );
    }
    assert(final(w).tabs == gone.tabs);
    assert(final(w).connect_form == gone.connect_form);
}

/// The window asks before it deletes a profile, and asks about that one.
pub proof fn law_deleting_a_profile_is_asked_about(
    a: &mut Workspace,
    b: &mut Workspace,
    id: ProfileId,
)
    requires
        call_ensures(Workspace::request_delete_profile, (a, id), ()),
        *old(b) == *final(a),
        call_ensures(Workspace::cancel_delete_profile, (b,), ()),
    ensures
        final(a).profile_delete_confirm == Some(id),
        final(b).profile_delete_confirm is None,
        final(b).tabs == old(a).tabs,
        final(b).profile_editor == old(a).profile_editor,
        final(b).selected_profile_id == old(a).selected_profile_id,
{
}

/// A profile that was saved is the one that the settings then show, with its secrets left out; one
/// that was not leaves the editor as it was, which says why.
pub proof fn law_saved_profile_is_shown(
    a: &mut Workspace,
    b: &mut Workspace,
    name: &str,
    profile: ConnectionProfile,
    secret_present: bool,
    why: String,
)
    requires
        call_ensures(
            Workspace::profile_editor_saved,
            (a, name, &ProfileSaved::Saved { profile, secret_present }),
            (),
        ),
        old(b).profile_editor is Some,
        call_ensures(Workspace::profile_editor_saved, (b, name, &ProfileSaved::Failed(why)), ()),
    ensures
        final(a).selected_profile_id == Some(profile.id),
        final(a).profile_editor matches Some(editor) && {
            &&& editor.profile_id == Some(profile.id)
            &&& !editor.is_new
            &&& editor.name@ == profile.name@
            &&& editor.host@ == profile.host@
            &&& editor.username@ == profile.username@
            &&& editor.password@.len() == 0
            &&& editor.passphrase@.len() == 0
            &&& editor.secret_present_hint == secret_present
        },
        final(b).profile_editor matches Some(editor) && {
            &&& editor.host == old(b).profile_editor->0.host
            &&& editor.password == old(b).profile_editor->0.password
            &&& editor.error is Some
        },
        final(b).selected_profile_id == old(b).selected_profile_id,
{
}

/// A new profile starts blank, on the usual port, signed in by password.
pub proof fn law_new_profile_starts_blank(w: &mut Workspace)
    requires
        call_ensures(Workspace::start_new_profile, (w,), ()),
    ensures
        final(w).profile_editor matches Some(editor) && {
            &&& editor.is_new
            &&& editor.profile_id is None
            &&& editor.name@.len() == 0
            &&& editor.host@.len() == 0
            &&& editor.username@.len() == 0
            &&& editor.port@ == seq!['2', '2']
            &&& editor.auth_method is Password
            &&& editor.password@.len() == 0
            &&& editor.key_path@.len() == 0
            &&& editor.passphrase@.len() == 0
        },
        final(w).selected_profile_id is None,
{
    reveal_strlit("22");
    assert("22"@ =~= seq!['2', '2']);
}

}
