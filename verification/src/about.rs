//! The version of the client, and how it is told.

use vstd::prelude::*;

use crate::text::{chars_of, joined, joined3};
use crate::workspace::{AppearancePreference, Config, Workspace};

verus! {

/// The version of the client, its single source.
pub const VERSION: &'static str = "0.1.0";

/// A decimal digit.
pub open spec fn is_digit(c: char) -> bool {
    '0' <= c <= '9'
}

/// The text is three rows of digits, parted by dots at `i` and `j`.
pub open spec fn dots_at(s: Seq<char>, i: int, j: int) -> bool {
    &&& 0 < i
    &&& i + 1 < j
    &&& j + 1 < s.len()
    &&& s[i] == '.'
    &&& s[j] == '.'
    &&& forall|k: int| 0 <= k < s.len() && k != i && k != j ==> is_digit(#[trigger] s[k])
}

/// The text is a version: three numbers, parted by dots.
pub open spec fn is_version(s: Seq<char>) -> bool {
    exists|i: int, j: int| dots_at(s, i, j)
}

/// Whether a text is a version: three numbers, parted by dots.
pub fn is_semver(version: &str) -> (r: bool)
    ensures
        r == is_version(version@),
{
    let chars = chars_of(version);
    let n: usize = chars.len();
    let mut first: Option<usize> = None;
    let mut second: Option<usize> = None;
    let mut k: usize = 0;
    while k < n
        invariant
            k <= n,
            n == chars@.len(),
            chars@ == version@,
            first is None ==> second is None,
            first matches Some(i) ==> i < k && chars@[i as int] == '.',
            second matches Some(j) ==> j < k && chars@[j as int] == '.' && first->0 < j,
            forall|m: int|
                0 <= m < k && !(first is Some && m == first->0) && !(second is Some && m
                    == second->0) ==> is_digit(#[trigger] chars@[m]),
        decreases n - k,
    {
        let c = chars[k];
        if c == '.' {
            if first.is_none() {
                first = Some(k);
            } else if second.is_none() {
                second = Some(k);
            } else {
                proof {
                    let a = first->0 as int;
                    let b = second->0 as int;
                    assert forall|i: int, j: int| !dots_at(version@, i, j) by {
                        assert(!is_digit(version@[a]) && !is_digit(version@[b]) && !is_digit(
                            version@[k as int],
                        ));
                    }
                }
                return false;
            }
        } else if c < '0' || c > '9' {
            proof {
                assert forall|i: int, j: int| !dots_at(version@, i, j) by {
                    assert(!is_digit(version@[k as int]));
                }
            }
            return false;
        }
        k += 1;
    }
    match (first, second) {
        (Some(i), Some(j)) => {
            let well = 0 < i && j - i > 1 && n - j > 1;
            proof {
                if well {
                    assert(dots_at(version@, i as int, j as int));
                } else {
                    assert forall|a: int, b: int| !dots_at(version@, a, b) by {
                        assert(!is_digit(version@[i as int]) && !is_digit(version@[j as int]));
                    }
                }
            }
            well
        },
        _ => {
            proof {
                assert forall|a: int, b: int| !dots_at(version@, a, b) by {
                    if dots_at(version@, a, b) {
                        assert(!is_digit(version@[a]) && !is_digit(version@[b]));
                    }
                }
            }
            false
        },
    }
}

/// What is copied as the version: the version and the processor it was built for.
pub fn version_info(version: &str, arch: &str) -> (r: String)
    ensures
        r@ == "macSFTP "@ + version@ + " ("@ + arch@ + ")"@,
{
    let mut out = joined3("macSFTP ", version, " (");
    out.append(arch);
    out.append(")");
    out
}

/// The line under the name in the dialog about the client.
pub fn version_label(version: &str) -> (r: String)
    ensures
        r@ == "Version "@ + version@,
{
    joined("Version ", version)
}

/// The colours of the window.
#[derive(Clone, Copy, PartialEq, Eq, Structural, Debug)]
pub enum ThemeChoice {
    FollowSystem,
    OneLight,
    OneDark,
}

/// The colours that go with an appearance.
pub open spec fn theme_of(appearance: AppearancePreference) -> ThemeChoice {
    match appearance {
        AppearancePreference::System => ThemeChoice::FollowSystem,
        AppearancePreference::Light => ThemeChoice::OneLight,
        AppearancePreference::Dark => ThemeChoice::OneDark,
    }
}

/// The colours that go with an appearance.
pub fn theme_for(appearance: AppearancePreference) -> (r: ThemeChoice)
    ensures
        r == theme_of(appearance),
{
    match appearance {
        AppearancePreference::System => ThemeChoice::FollowSystem,
        AppearancePreference::Light => ThemeChoice::OneLight,
        AppearancePreference::Dark => ThemeChoice::OneDark,
    }
}

impl Workspace {
    /// The user chose an appearance: the window takes its colours, and a choice that could not be
    /// written is told.
    pub fn set_appearance(&mut self, appearance: AppearancePreference, saved: bool) -> (r:
        ThemeChoice)
        ensures
            r == theme_of(appearance),
            *final(self) == (Workspace { config_error: final(self).config_error, ..*old(self) }),
            saved ==> final(self).config_error is None,
            !saved ==> crate::helpers::string_of(final(self).config_error) == Some(
                "Could not write config.json. Check file permissions."@,
            ),
    {
        self.note_config_saved(saved);
        theme_for(appearance)
    }

    /// What is written when the user turns hidden files on or off.
    pub fn toggle_hidden_files(&self, config: &Config) -> (r: bool)
        ensures
            r == !config.show_hidden_files,
    {
        !config.show_hidden_files
    }
}

}
