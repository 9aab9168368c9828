//! The icons that ship with the program.

use vstd::prelude::*;

use crate::text::{same_text, starts_with_text};

verus! {

/// An icon.
#[derive(Clone, Copy, PartialEq, Eq, Structural, Debug)]
pub enum IconName {
    Plus,
    Close,
    ArrowUp,
    Refresh,
    Copy,
    Upload,
    Download,
    Folder,
    File,
    Symlink,
    Trash,
    ChevronDown,
    ChevronLeft,
    ChevronRight,
    Transfers,
    Server,
}

/// The path of an icon.
pub open spec fn icon_path(icon: IconName) -> Seq<char> {
    match icon {
        IconName::Plus => "icons/plus.svg"@,
        IconName::Close => "icons/close.svg"@,
        IconName::ArrowUp => "icons/arrow_up.svg"@,
        IconName::Refresh => "icons/refresh.svg"@,
        IconName::Copy => "icons/copy.svg"@,
        IconName::Upload => "icons/upload.svg"@,
        IconName::Download => "icons/download.svg"@,
        IconName::Folder => "icons/folder.svg"@,
        IconName::File => "icons/file.svg"@,
        IconName::Symlink => "icons/symlink.svg"@,
        IconName::Trash => "icons/trash.svg"@,
        IconName::ChevronDown => "icons/chevron_down.svg"@,
        IconName::ChevronLeft => "icons/chevron_left.svg"@,
        IconName::ChevronRight => "icons/chevron_right.svg"@,
        IconName::Transfers => "icons/transfers.svg"@,
        IconName::Server => "icons/server.svg"@,
    }
}

/// The icons, in the order in which they are listed.
pub open spec fn all_icons() -> Seq<IconName> {
    seq![
        IconName::Plus,
        IconName::Close,
        IconName::ArrowUp,
        IconName::Refresh,
        IconName::Copy,
        IconName::Upload,
        IconName::Download,
        IconName::Folder,
        IconName::File,
        IconName::Symlink,
        IconName::Trash,
        IconName::ChevronDown,
        IconName::ChevronLeft,
        IconName::ChevronRight,
        IconName::Transfers,
        IconName::Server,
    ]
}

impl IconName {
    /// The path of the icon.
    pub fn path(self) -> (r: &'static str)
        ensures
            r@ == icon_path(self),
    {
        match self {
            IconName::Plus => "icons/plus.svg",
            IconName::Close => "icons/close.svg",
            IconName::ArrowUp => "icons/arrow_up.svg",
            IconName::Refresh => "icons/refresh.svg",
            IconName::Copy => "icons/copy.svg",
            IconName::Upload => "icons/upload.svg",
            IconName::Download => "icons/download.svg",
            IconName::Folder => "icons/folder.svg",
            IconName::File => "icons/file.svg",
            IconName::Symlink => "icons/symlink.svg",
            IconName::Trash => "icons/trash.svg",
            IconName::ChevronDown => "icons/chevron_down.svg",
            IconName::ChevronLeft => "icons/chevron_left.svg",
            IconName::ChevronRight => "icons/chevron_right.svg",
            IconName::Transfers => "icons/transfers.svg",
            IconName::Server => "icons/server.svg",
        }
    }
}

/// The icons, in the order in which they are listed.
pub fn icon_names() -> (r: Vec<IconName>)
    ensures
        r@ == all_icons(),
{
    let mut out: Vec<IconName> = Vec::new();
    out.push(IconName::Plus);
    out.push(IconName::Close);
    out.push(IconName::ArrowUp);
    out.push(IconName::Refresh);
    out.push(IconName::Copy);
    out.push(IconName::Upload);
    out.push(IconName::Download);
    out.push(IconName::Folder);
    out.push(IconName::File);
    out.push(IconName::Symlink);
    out.push(IconName::Trash);
    out.push(IconName::ChevronDown);
    out.push(IconName::ChevronLeft);
    out.push(IconName::ChevronRight);
    out.push(IconName::Transfers);
    out.push(IconName::Server);
    assert(out@ =~= all_icons());
    out
}

/// The first icon of a list with the given path.
pub open spec fn icon_at(icons: Seq<IconName>, path: Seq<char>) -> Option<IconName>
    decreases icons.len(),
{
    if icons.len() == 0 {
        None
    } else if icon_path(icons[0]) == path {
        Some(icons[0])
    } else {
        icon_at(icons.drop_first(), path)
    }
}

/// The paths of those icons of a list whose path begins with the given text.
pub open spec fn paths_below(icons: Seq<IconName>, prefix: Seq<char>) -> Seq<Seq<char>>
    decreases icons.len(),
{
    if icons.len() == 0 {
        Seq::empty()
    } else {
        let front = paths_below(icons.drop_last(), prefix);
        if prefix.is_prefix_of(icon_path(icons.last())) {
            front.push(icon_path(icons.last()))
        } else {
            front
        }
    }
}

/// The icons that ship inside the program.
pub struct Assets;

impl Assets {
    /// The icon at a path.
    pub fn load(&self, path: &str) -> (r: Option<IconName>)
        ensures
            r == icon_at(all_icons(), path@),
    {
        let all = icon_names();
        let mut i: usize = 0;
        assert(all@.skip(0) =~= all@);
        while i < all.len()
            invariant
                i <= all@.len(),
                all@ == all_icons(),
                icon_at(all_icons(), path@) == icon_at(all@.skip(i as int), path@),
            decreases all@.len() - i,
        {
            assert(all@.skip(i as int).drop_first() =~= all@.skip(i + 1));
            if same_text(all[i].path(), path) {
                return Some(all[i]);
            }
            i += 1;
        }
        None
    }

    /// The paths of the icons whose path begins with the given text.
    pub fn list(&self, path: &str) -> (r: Vec<&'static str>)
        ensures
            crate::palette_commands::words(r@) == paths_below(all_icons(), path@),
    {
        let all = icon_names();
        let mut out: Vec<&'static str> = Vec::new();
        let mut i: usize = 0;
        assert(crate::palette_commands::words(out@) =~= paths_below(all@.take(0), path@));
        while i < all.len()
            invariant
                i <= all@.len(),
                all@ == all_icons(),
                crate::palette_commands::words(out@) == paths_below(all@.take(i as int), path@),
            decreases all@.len() - i,
        {
            assert(all@.take(i + 1).drop_last() =~= all@.take(i as int));
            let icon = all[i].path();
            if starts_with_text(icon, path) {
                let ghost held = out@;
                out.push(icon);
                assert(crate::palette_commands::words(out@)
                    =~= crate::palette_commands::words(held).push(icon@));
            }
            i += 1;
        }
        assert(all@.take(i as int) =~= all@);
        out
    }
}

/// Every icon is found at its own path.
pub proof fn law_every_icon_is_found(icon: IconName)
    ensures
        icon_at(all_icons(), icon_path(icon)) == Some(icon),
{
    let k = choose|k: int| 0 <= k < all_icons().len() && all_icons()[k] == icon;
    assert(exists|k: int| 0 <= k < all_icons().len() && all_icons()[k] == icon) by {
        assert(all_icons()[0] == IconName::Plus);
        assert(all_icons()[1] == IconName::Close);
        assert(all_icons()[2] == IconName::ArrowUp);
        assert(all_icons()[3] == IconName::Refresh);
        assert(all_icons()[4] == IconName::Copy);
        assert(all_icons()[5] == IconName::Upload);
        assert(all_icons()[6] == IconName::Download);
        assert(all_icons()[7] == IconName::Folder);
        assert(all_icons()[8] == IconName::File);
        assert(all_icons()[9] == IconName::Symlink);
        assert(all_icons()[10] == IconName::Trash);
        assert(all_icons()[11] == IconName::ChevronDown);
        assert(all_icons()[12] == IconName::ChevronLeft);
        assert(all_icons()[13] == IconName::ChevronRight);
        assert(all_icons()[14] == IconName::Transfers);
        assert(all_icons()[15] == IconName::Server);
    }
    assert forall|i: int| 0 <= i < all_icons().len() && all_icons()[i] != icon implies icon_path(
        #[trigger] all_icons()[i],
    ) != icon_path(icon) by {
        lemma_paths_differ(all_icons()[i], icon);
    }
    lemma_icon_at(all_icons(), icon, k);
}

proof fn lemma_icon_at(icons: Seq<IconName>, icon: IconName, k: int)
    requires
        0 <= k < icons.len(),
        icons[k] == icon,
        forall|i: int|
            0 <= i < icons.len() && icons[i] != icon ==> icon_path(#[trigger] icons[i])
                != icon_path(icon),
    ensures
        icon_at(icons, icon_path(icon)) == Some(icon),
    decreases icons.len(),
{
    if icons[0] != icon {
        let rest = icons.drop_first();
        assert(rest[k - 1] == icon);
        assert forall|i: int| 0 <= i < rest.len() && rest[i] != icon implies icon_path(
            #[trigger] rest[i],
        ) != icon_path(icon) by {
            assert(icons[i + 1] != icon);
        }
        lemma_icon_at(rest, icon, k - 1);
    }
}

proof fn lemma_paths_differ(a: IconName, b: IconName)
    requires
        a != b,
    ensures
        icon_path(a) != icon_path(b),
{
    reveal_strlit("icons/plus.svg");
    reveal_strlit("icons/close.svg");
    reveal_strlit("icons/arrow_up.svg");
    reveal_strlit("icons/refresh.svg");
    reveal_strlit("icons/copy.svg");
    reveal_strlit("icons/upload.svg");
    reveal_strlit("icons/download.svg");
    reveal_strlit("icons/folder.svg");
    reveal_strlit("icons/file.svg");
    reveal_strlit("icons/symlink.svg");
    reveal_strlit("icons/trash.svg");
    reveal_strlit("icons/chevron_down.svg");
    reveal_strlit("icons/chevron_left.svg");
    reveal_strlit("icons/chevron_right.svg");
    reveal_strlit("icons/transfers.svg");
    reveal_strlit("icons/server.svg");
    assert(icon_path(a).len() != icon_path(b).len() || icon_path(a)[6] != icon_path(b)[6]
        || icon_path(a)[7] != icon_path(b)[7] || icon_path(a)[8] != icon_path(b)[8]
        || icon_path(a)[14] != icon_path(b)[14]);
}

}
