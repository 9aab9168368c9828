//! The filter of a pane and the keys that it takes.

use vstd::prelude::*;

use crate::helpers::string_of;
use crate::keys::Keystroke;
use crate::modals::latest_conflict;
use crate::model::{PaneSide, WorkspaceSurface};
use crate::workspace::{pane_focus, PaneFilter, Workspace};

verus! {

/// A filter as contracts speak of it.
pub struct FilterView {
    pub query: Seq<char>,
    pub input: Seq<char>,
    pub explicit_focus: bool,
}

impl View for PaneFilter {
    type V = FilterView;

    open spec fn view(&self) -> FilterView {
        FilterView {
            query: self.query@,
            input: self.input@,
            explicit_focus: self.explicit_focus,
        }
    }
}

/// A filter that lets everything through.
pub open spec fn no_filter() -> FilterView {
    FilterView { query: Seq::empty(), input: Seq::empty(), explicit_focus: false }
}

/// A control character.
pub open spec fn is_control(c: char) -> bool {
    c <= '\u{1f}' || '\u{7f}' <= c <= '\u{9f}'
}

/// A text with a control character in it.
pub open spec fn has_control(s: Seq<char>) -> bool {
    exists|i: int| 0 <= i < s.len() && is_control(#[trigger] s[i])
}

/// Whether a text has a control character in it.
pub fn holds_control(s: &str) -> (r: bool)
    ensures
        r == has_control(s@),
{
    let chars = crate::text::chars_of(s);
    let mut i: usize = 0;
    while i < chars.len()
        invariant
            i <= chars@.len(),
            chars@ == s@,
            forall|k: int| 0 <= k < i ==> !is_control(#[trigger] s@[k]),
        decreases chars@.len() - i,
    {
        let c = chars[i];
        if c <= '\u{1f}' || ('\u{7f}' <= c && c <= '\u{9f}') {
            assert(is_control(s@[i as int]));
            return true;
        }
        i += 1;
    }
    false
}

/// The filter with another query, which its field shows too.
pub open spec fn with_query(filter: FilterView, query: Seq<char>) -> FilterView {
    FilterView { query, input: query, ..filter }
}

/// The filter after a key; nothing where the key is not for it. Escape clears it. While its field
/// has the keyboard, the field takes the key and `typed` is what it then holds. Otherwise keys
/// that type are added to the query, and backspace takes one off.
pub open spec fn filter_keyed(
    filter: FilterView,
    stroke: Keystroke,
    typed: Option<Seq<char>>,
) -> Option<FilterView> {
    let held = stroke.modifiers;
    if stroke.is_plain("escape"@) {
        if filter.query.len() > 0 || filter.explicit_focus {
            Some(no_filter())
        } else {
            None
        }
    } else if filter.explicit_focus {
        match typed {
            Some(text) => Some(with_query(filter, text)),
            None => None,
        }
    } else if held.platform || held.control || held.alt || held.function {
        None
    } else if stroke.key@ == "backspace"@ {
        if filter.query.len() == 0 {
            None
        } else if filter.query.len() == 1 {
            Some(no_filter())
        } else {
            Some(with_query(filter, filter.query.drop_last()))
        }
    } else {
        match stroke.key_char {
            Some(text) => if has_control(text@) {
                None
            } else {
                Some(with_query(filter, filter.query + text@))
            },
            None => None,
        }
    }
}

impl PaneFilter {
    /// Takes a key. Says whether it was for the filter.
    pub fn take_key(&mut self, stroke: &Keystroke, typed: Option<String>) -> (r: bool)
        ensures
            r == (filter_keyed(old(self)@, *stroke, string_of(typed)) is Some),
            final(self)@ == match filter_keyed(old(self)@, *stroke, string_of(typed)) {
                Some(next) => next,
                None => old(self)@,
            },
            !r ==> *final(self) == *old(self),
    {
        let held = stroke.modifiers;
        if stroke.plain("escape") {
            if !self.is_active() {
                return false;
            }
            self.clear();
            assert(self@ == no_filter()) by {
                assert(self.query@ =~= Seq::<char>::empty());
                assert(self.input@ =~= Seq::<char>::empty());
            }
            return true;
        }
        if self.explicit_focus {
            return match typed {
                Some(text) => {
                    self.query = text.clone();
                    self.input = text;
                    true
                },
                None => false,
            };
        }
        if held.platform || held.control || held.alt || held.function {
            return false;
        }
        if stroke.named("backspace") {
            let count: usize = self.query.as_str().unicode_len();
            if count == 0 {
                return false;
            }
            let rest = self.query.as_str().substring_char(0, count - 1).to_string();
            assert(rest@ =~= self.query@.drop_last());
            if count == 1 {
                self.clear();
                assert(self@ == no_filter()) by {
                    assert(self.query@ =~= Seq::<char>::empty());
                    assert(self.input@ =~= Seq::<char>::empty());
                }
            } else {
                self.query = rest.clone();
                self.input = rest;
            }
            return true;
        }
        match &stroke.key_char {
            Some(text) => {
                if holds_control(text.as_str()) {
                    return false;
                }
                self.query.append(text.as_str());
                self.input = self.query.clone();
                true
            },
            None => false,
        }
    }
}

/// A typed character that is no control character can be taken back.
pub proof fn law_backspace_takes_back(filter: FilterView, letter: Keystroke, back: Keystroke)
    requires
        !filter.explicit_focus,
        filter.input == filter.query,
        !letter.modifiers.any(),
        letter.key@ != "escape"@,
        letter.key@ != "backspace"@,
        letter.key_char is Some,
        letter.key_char->0@.len() == 1,
        !has_control(letter.key_char->0@),
        !back.modifiers.any(),
        back.key@ == "backspace"@,
    ensures
        filter_keyed(filter, letter, None) is Some,
        filter_keyed(filter_keyed(filter, letter, None)->0, back, None) == Some(filter),
{
    reveal_strlit("backspace");
    reveal_strlit("escape");
    assert("backspace"@.len() != "escape"@.len());
    let grown = filter_keyed(filter, letter, None)->0;
    assert(grown.query.drop_last() =~= filter.query);
    if filter.query.len() == 0 {
        assert(filter.query =~= Seq::<char>::empty());
    }
}

impl Workspace {
    /// Shows everything in a pane again.
    pub fn clear_filter(&mut self, side: PaneSide)
        ensures
            *final(self) == (match side {
                PaneSide::Local => Workspace {
                    local_filter: final(self).local_filter,
                    ..*old(self)
                },
                PaneSide::Remote => Workspace {
                    remote_filter: final(self).remote_filter,
                    ..*old(self)
                },
            }),
            side is Local ==> final(self).local_filter.is_clear(),
            side is Remote ==> final(self).remote_filter.is_clear(),
    {
        match side {
            PaneSide::Local => self.local_filter.clear(),
            PaneSide::Remote => self.remote_filter.clear(),
        }
    }

    /// Something else has the keyboard, so that keys do not reach the filter of a pane.
    pub open spec fn filter_blocked(&self) -> bool {
        ||| self.go_to_path_open
        ||| self.connect_form is Some
        ||| self.delete_confirm is Some
        ||| self.inline_edit is Some
        ||| self.host_key_asked() is Some
        ||| latest_conflict(self.modals@) is Some
        ||| self.about_open
        ||| !(self.surface is Files)
    }

    fn filter_input_blocked(&self) -> (r: bool)
        ensures
            r == self.filter_blocked(),
    {
        self.go_to_path_open || self.connect_form.is_some() || self.delete_confirm.is_some()
            || self.inline_edit.is_some() || self.active_host_key_prompt().is_some()
            || self.active_transfer_conflict_prompt().is_some() || self.about_open || self.surface
            != WorkspaceSurface::Files
    }

    /// The filter of a pane.
    pub open spec fn filter_of(&self, side: PaneSide) -> FilterView {
        match side {
            PaneSide::Local => self.local_filter@,
            PaneSide::Remote => self.remote_filter@,
        }
    }

    /// But for the filter of one pane, and who has the keyboard, the window is as before.
    pub open spec fn refiltered(
        &self,
        before: Workspace,
        side: PaneSide,
        filter: FilterView,
    ) -> bool {
        &&& self.filter_of(side) == filter
        &&& match side {
            PaneSide::Local => *self == (Workspace {
                local_filter: self.local_filter,
                focus: self.focus,
                focused_side: self.focused_side,
                ..before
            }),
            PaneSide::Remote => *self == (Workspace {
                remote_filter: self.remote_filter,
                focus: self.focus,
                focused_side: self.focused_side,
                ..before
            }),
        }
    }

    /// Gives the filter field of the focused pane the keyboard, unless something else has it.
    pub fn open_filter_pane(&mut self)
        ensures
            old(self).filter_blocked() ==> *final(self) == *old(self),
            !old(self).filter_blocked() ==> {
                let side = old(self).focused_side;
                &&& final(self).refiltered(
                    *old(self),
                    side,
                    FilterView {
                        query: old(self).filter_of(side).query,
                        input: old(self).filter_of(side).query,
                        explicit_focus: true,
                    },
                )
                &&& final(self).focus == pane_focus(side)
                &&& final(self).focused_side == side
            },
    {
        if self.filter_input_blocked() {
            return;
        }
        let side = self.focused_side;
        match side {
            PaneSide::Local => {
                self.local_filter.explicit_focus = true;
                self.local_filter.input = self.local_filter.query.clone();
            },
            PaneSide::Remote => {
                self.remote_filter.explicit_focus = true;
                self.remote_filter.input = self.remote_filter.query.clone();
            },
        }
        self.focus_pane(side);
    }

    /// A key typed in a pane. Says whether it was for its filter.
    pub fn handle_filter_key(&mut self, side: PaneSide, stroke: &Keystroke, typed: Option<String>)
        -> (r: bool)
        ensures
            ({
                let next = filter_keyed(old(self).filter_of(side), *stroke, string_of(typed));
                &&& r == (!old(self).filter_blocked() && next is Some)
                &&& !r ==> *final(self) == *old(self)
                &&& r ==> {
                    &&& final(self).refiltered(*old(self), side, next->0)
                    &&& final(self).focused_side == old(self).focused_side
                    &&& final(self).focus == if stroke.is_plain("escape"@) {
                        pane_focus(side)
                    } else {
                        old(self).focus
                    }
                }
            }),
    {
        if self.filter_input_blocked() {
            return false;
        }
        let taken = match side {
            PaneSide::Local => self.local_filter.take_key(stroke, typed),
            PaneSide::Remote => self.remote_filter.take_key(stroke, typed),
        };
        let focus = match side {
            PaneSide::Local => crate::workspace::FocusTarget::LocalPane,
            PaneSide::Remote => crate::workspace::FocusTarget::RemotePane,
        };
        if taken && stroke.plain("escape") {
            self.focus = focus;
        }
        taken
    }
}

}
