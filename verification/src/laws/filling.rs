//! The connect form: its fields, its list of profiles and the keys that it takes.

use vstd::prelude::*;

use super::connecting::{is_first, lemma_found, lemma_not_found};
use crate::connect_actions::ConnectKey;
use crate::connect_form::{
    connect_field_position, find_profile, law_focus_returns, ConnectField, ConnectForm, FormError,
};
use crate::form_views::{ConnectFormView, EditorView};
use crate::keys::{field_key, FieldKey, Keystroke};
use crate::model::{AuthMethod, AuthMethodKind, ConnectionProfile, ConnectionSettings, ProfileId};
use crate::profiles::{filtered_profiles, ProfileEditorField, ProfileEditorState};
use crate::workspace::Workspace;

verus! {

/// The form of a profile shows its host, port and user and how it signs in, and no secret.
pub proof fn law_form_shows_the_profile(profile: ConnectionProfile, form: ConnectForm)
    requires
        call_ensures(ConnectForm::from_profile, (&profile,), form),
    ensures
        form.host@ == profile.host@,
        form.port@ == crate::text::decimal(profile.port as nat),
        form.username@ == profile.username@,
        form.source_profile_id == Some(profile.id),
        profile.auth is Password <==> form.auth_method is Password,
        profile.auth matches AuthMethod::PrivateKey { key_path } ==> form.key_path@ == key_path@,
        form.password@.len() == 0,
        form.passphrase@.len() == 0,
        !form.profile_picker_open,
        form.error is None,
{
}

/// An empty form has nothing in it but the usual port.
pub proof fn law_empty_form_is_empty(form: ConnectForm)
    requires
        call_ensures(ConnectForm::empty, (), form),
    ensures
        form.host@.len() == 0,
        form.port@ == seq!['2', '2'],
        form.username@.len() == 0,
        form.password@.len() == 0,
        form.key_path@.len() == 0,
        form.passphrase@.len() == 0,
        form.auth_method is Password,
        form.source_profile_id is None,
        form.error is None,
{
    reveal_strlit("22");
    assert("22"@ =~= seq!['2', '2']);
}

/// Leaving a profile for an entry by hand forgets its secrets and keeps the rest.
pub proof fn law_manual_entry_forgets_the_secrets(form: &mut ConnectForm)
    requires
        call_ensures(ConnectForm::switch_to_manual_entry, (form,), ()),
    ensures
        final(form).source_profile_id is None,
        final(form).password@.len() == 0,
        final(form).passphrase@.len() == 0,
        final(form).host == old(form).host,
        final(form).port == old(form).port,
        final(form).username == old(form).username,
        final(form).key_path == old(form).key_path,
        final(form).auth_method == old(form).auth_method,
        !final(form).profile_picker_open,
{
}

/// A form can be submitted unseen where it lacks nothing, and a password form needs a password.
pub proof fn law_complete_form_connects_by_itself(
    form: ConnectForm,
    home: Option<&str>,
    built: Result<ConnectionSettings, FormError>,
    r: bool,
)
    requires
        call_ensures(ConnectForm::build_settings, (&form, home), built),
        call_ensures(ConnectForm::can_auto_connect, (&form, home), r),
    ensures
        r <==> built is Ok && (form.auth_method is Password ==> form.password@.len() > 0),
{
}

/// The profile that is found is the first with the id.
pub proof fn law_profile_is_found_by_its_id(
    profiles: Vec<ConnectionProfile>,
    id: ProfileId,
    k: int,
    r: Option<usize>,
)
    requires
        call_ensures(find_profile, (&profiles, id), r),
    ensures
        is_first(profiles@, k) && profiles@[k].id == id ==> r is Some && profiles@[r->0 as int]
            == profiles@[k],
        (forall|j: int| 0 <= j < profiles@.len() ==> (#[trigger] profiles@[j]).id != id)
            ==> r is None,
{
    if is_first(profiles@, k) && profiles@[k].id == id {
        lemma_found(profiles@, k);
    }
    if forall|j: int| 0 <= j < profiles@.len() ==> (#[trigger] profiles@[j]).id != id {
        lemma_not_found(profiles@, id);
    }
}

/// The label of the list of profiles names the one that the form was filled from.
pub proof fn law_label_names_the_profile(
    form: ConnectForm,
    profiles: Vec<ConnectionProfile>,
    k: int,
    r: String,
)
    requires
        is_first(profiles@, k),
        form.source_profile_id == Some(profiles@[k].id),
        call_ensures(ConnectForm::profile_trigger_label, (&form, &profiles), r),
    ensures
        r@ == profiles@[k].name@,
{
    lemma_found(profiles@, k);
}

proof fn lemma_position(order: Seq<ConnectField>, k: int)
    requires
        0 <= k < order.len(),
        forall|a: int, b: int| 0 <= a < b < order.len() ==> order[a] != order[b],
    ensures
        connect_field_position(order, order[k]) == k,
    decreases order.len(),
{
    if k > 0 {
        let rest = order.drop_first();
        assert(rest[k - 1] == order[k]);
        assert(rest.contains(order[k]));
        assert forall|a: int, b: int| 0 <= a < b < rest.len() implies rest[a] != rest[b] by {
            assert(rest[a] == order[a + 1] && rest[b] == order[b + 1]);
        }
        lemma_position(rest, k - 1);
        assert(order[0] != order[k]);
    }
}

/// The fields of the form take the focus in order, round the ends, and the way back is the way
/// there.
pub proof fn law_form_focus_goes_in_order(
    a: &mut ConnectForm,
    b: &mut ConnectForm,
    order: Vec<ConnectField>,
    k: int,
)
    requires
        call_ensures(ConnectForm::field_order, (&*old(a),), order),
        0 <= k < order@.len(),
        old(a).focused_field == order@[k],
        call_ensures(ConnectForm::cycle_focus, (a, false), ()),
        *old(b) == *final(a),
        call_ensures(ConnectForm::cycle_focus, (b, true), ()),
    ensures
        order@[0] is Host && order@[1] is Port && order@[2] is Username,
        old(a).auth_method is Password ==> order@.len() == 4 && order@[3] is Password,
        old(a).auth_method is PrivateKey ==> order@.len() == 5 && order@[3] is KeyPath
            && order@[4] is Passphrase,
        k + 1 < order@.len() ==> final(a).focused_field == order@[k + 1],
        k + 1 == order@.len() ==> final(a).focused_field == order@[0],
        *final(b) == *old(a),
{
    assert(order@.contains(order@[k]));
    law_focus_returns(old(a).auth_method, order@[k]);
    lemma_position(order@, k);
    let n = order@.len() as int;
    if k + 1 < n {
        vstd::arithmetic::div_mod::lemma_small_mod((k + 1) as nat, n as nat);
    } else {
        vstd::arithmetic::div_mod::lemma_mod_self_0(n);
    }
}

/// Another way to sign in takes the focus off a field that goes, and keeps what was typed.
pub proof fn law_way_to_sign_in_is_changed(form: &mut ConnectForm, method: AuthMethodKind)
    requires
        call_ensures(ConnectForm::set_auth_method, (form, method), ()),
    ensures
        final(form).auth_method == method,
        final(form).host == old(form).host,
        final(form).password == old(form).password,
        final(form).key_path == old(form).key_path,
        final(form).passphrase == old(form).passphrase,
        old(form).focused_field is Host || old(form).focused_field is Port
            || old(form).focused_field is Username ==> final(form).focused_field
            == old(form).focused_field,
        method is Password ==> !(final(form).focused_field is KeyPath) && !(
        final(form).focused_field is Passphrase),
        method is PrivateKey ==> !(final(form).focused_field is Password),
{
    let fields = crate::connect_form::connect_fields(method);
    assert(fields[0] is Host && fields[1] is Port && fields[2] is Username);
    assert(fields.contains(fields[0]) && fields.contains(fields[1]) && fields.contains(fields[2]));
}

/// What is typed goes into the field that has the focus, or into the filter while the list of
/// profiles is open; enter takes the first profile that is found, or submits the form.
pub proof fn law_form_takes_keys(
    w: &mut Workspace,
    profiles: Vec<ConnectionProfile>,
    found: Vec<ConnectionProfile>,
    q: &str,
    stroke: Keystroke,
    text: String,
    set: &mut ConnectForm,
    r: ConnectKey,
)
    requires
        old(w).connect_form is Some,
        q@ == old(w).connect_form->0.profile_picker_filter@,
        call_ensures(filtered_profiles, (&profiles, q), found),
        *old(set) == old(w).connect_form->0,
        call_ensures(
            ConnectForm::set_field,
            (set, old(w).connect_form->0.focused_field, text),
            (),
        ),
        call_ensures(
            Workspace::handle_connect_form_key,
            (w, &profiles, &stroke, Some(text)),
            r,
        ),
    ensures
        final(w).connect_form is Some,
        ({
            let form = old(w).connect_form->0;
            let now = final(w).connect_form->0;
            let plain = !stroke.modifiers.shift && !stroke.modifiers.control
                && !stroke.modifiers.alt && !stroke.modifiers.platform
                && !stroke.modifiers.function;
            &&& stroke.key@ == "enter"@ && plain && !form.profile_picker_open ==> r is Submit && now
                == form
            &&& stroke.key@ == "enter"@ && plain && form.profile_picker_open && found@.len() > 0
                ==> r == ConnectKey::Take(Some(found@[0].id)) && now == form
            &&& stroke.key@ == "escape"@ && form.profile_picker_open ==> r is PickerClosed
                && !now.profile_picker_open && now.host == form.host
            &&& stroke.key@ == "tab"@ ==> r is Moved && now.host == form.host && now.password
                == form.password
            &&& stroke.key@ != "enter"@ && stroke.key@ != "escape"@ && stroke.key@ != "tab"@
                && form.profile_picker_open ==> {
                &&& now.profile_picker_filter@ == text@
                &&& now.host == form.host && now.password == form.password
            }
            &&& stroke.key@ != "enter"@ && stroke.key@ != "escape"@ && stroke.key@ != "tab"@
                && !form.profile_picker_open ==> {
                &&& r is Edited
                &&& now.host == final(set).host
                &&& now.port == final(set).port
                &&& now.username == final(set).username
                &&& now.password == final(set).password
                &&& now.key_path == final(set).key_path
                &&& now.passphrase == final(set).passphrase
                &&& now.focused_field == form.focused_field
            }
        }),
{
    reveal_strlit("enter");
    reveal_strlit("escape");
    reveal_strlit("tab");
    assert("enter"@.len() == 5 && "escape"@.len() == 6 && "tab"@.len() == 3);
}

/// The form shows each field with its text, and only secrets are hidden.
pub proof fn law_form_hides_secrets_alone(
    form: ConnectForm,
    profiles: Vec<ConnectionProfile>,
    order: Vec<ConnectField>,
    k: int,
    r: ConnectFormView,
)
    requires
        call_ensures(ConnectForm::form_view, (&form, &profiles), r),
        call_ensures(ConnectForm::field_order, (&form,), order),
        0 <= k < order@.len(),
    ensures
        r.rows@.len() == order@.len(),
        r.rows@[k].field == order@[k],
        r.rows@[k].masked <==> order@[k] is Password || order@[k] is Passphrase,
        r.rows@[k].focused <==> form.focused_field == order@[k],
        r.rows@[k].text@ == match order@[k] {
            ConnectField::Host => form.host@,
            ConnectField::Port => form.port@,
            ConnectField::Username => form.username@,
            ConnectField::Password => form.password@,
            ConnectField::KeyPath => form.key_path@,
            ConnectField::Passphrase => form.passphrase@,
        },
        r.error == form.error,
        r.picker is Some <==> form.profile_picker_open,
        r.saved_profile <==> form.source_profile_id is Some,
{
}

/// The editor shows each field with its text, and only secrets are hidden. Only a profile that is
/// saved can be deleted.
pub proof fn law_editor_hides_secrets_alone(
    editor: ProfileEditorState,
    order: Vec<ProfileEditorField>,
    k: int,
    r: EditorView,
)
    requires
        call_ensures(ProfileEditorState::editor_view, (&editor,), r),
        call_ensures(ProfileEditorState::field_order, (&editor,), order),
        0 <= k < order@.len(),
    ensures
        r.rows@.len() == order@.len(),
        r.rows@[k].field == order@[k],
        r.rows@[k].masked <==> order@[k] is Password || order@[k] is Passphrase,
        r.rows@[k].focused <==> editor.focused_field == order@[k],
        r.rows@[k].text@ == match order@[k] {
            ProfileEditorField::Name => editor.name@,
            ProfileEditorField::Host => editor.host@,
            ProfileEditorField::Port => editor.port@,
            ProfileEditorField::Username => editor.username@,
            ProfileEditorField::Password => editor.password@,
            ProfileEditorField::KeyPath => editor.key_path@,
            ProfileEditorField::Passphrase => editor.passphrase@,
            ProfileEditorField::DefaultRemotePath => editor.default_remote_path@,
        },
        r.can_delete <==> !editor.is_new,
        r.keeps_secret == editor.secret_present_hint,
{
}

/// What the settings delete is the profile that they show.
pub proof fn law_shown_profile_is_the_one_to_delete(w: Workspace, r: Option<ProfileId>)
    requires
        call_ensures(Workspace::profile_to_delete, (&w,), r),
    ensures
        w.profile_editor matches Some(editor) ==> {
            &&& editor.is_new ==> r is None
            &&& !editor.is_new && editor.profile_id is Some ==> r == editor.profile_id
            &&& !editor.is_new && editor.profile_id is None ==> r == w.selected_profile_id
        },
        w.profile_editor is None ==> r is None,
{
}

/// Enter submits a dialog with one field, and any other key changes the field.
pub proof fn law_enter_submits(stroke: Keystroke, text: String, r: FieldKey, s: FieldKey)
    requires
        call_ensures(field_key, (&stroke, Some(text)), r),
        call_ensures(field_key, (&stroke, None), s),
    ensures
        stroke.key@ != "enter"@ ==> r == FieldKey::Edited(text) && s is Unused,
        stroke.key@ == "enter"@ && !stroke.modifiers.shift && !stroke.modifiers.control
            && !stroke.modifiers.alt && !stroke.modifiers.platform && !stroke.modifiers.function
            ==> r is Submit && s is Submit,
{
}

}
