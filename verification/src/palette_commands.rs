//! The commands of the command palette and the search among them.

use vstd::prelude::*;

use crate::lists::{lemma_filter_take, lemma_filter_holds};
use crate::text::{
    all_ascii, ascii_lowercase, contains_text, has_text, joined, lemma_trimmed_ascii,
    lemma_trimmed_lowercase, lowercase, same_text, to_lowercase, trim, trimmed,
};

verus! {

/// When a command is on offer.
#[derive(Clone, Copy, PartialEq, Eq, Structural, Debug)]
pub enum PaletteWhen {
    Always,
    HasTabs,
    HasActiveTab,
    ConnectedRemote,
}

/// One command of the palette.
#[derive(Debug)]
pub struct PaletteCommand {
    pub id: &'static str,
    pub title: &'static str,
    pub keywords: Vec<&'static str>,
    pub keybinding: Option<&'static str>,
    pub when: PaletteWhen,
}

/// What a [`PaletteWhen`] is judged by.
#[derive(Clone, Copy, PartialEq, Eq, Structural, Debug)]
pub struct PaletteContext {
    pub has_tabs: bool,
    pub has_active_tab: bool,
    pub remote_connected: bool,
}

/// A command as contracts speak of it.
pub struct CommandView {
    pub id: Seq<char>,
    pub title: Seq<char>,
    pub keywords: Seq<Seq<char>>,
    pub keybinding: Option<Seq<char>>,
    pub when: PaletteWhen,
}

/// The contents of a list of words.
pub open spec fn words(v: Seq<&'static str>) -> Seq<Seq<char>> {
    v.map_values(|w: &'static str| w@)
}

impl View for PaletteCommand {
    type V = CommandView;

    open spec fn view(&self) -> CommandView {
        CommandView {
            id: self.id@,
            title: self.title@,
            keywords: words(self.keywords@),
            keybinding: match self.keybinding {
                Some(key) => Some(key@),
                None => None,
            },
            when: self.when,
        }
    }
}

/// The contents of a list of commands.
pub open spec fn commands(v: Seq<PaletteCommand>) -> Seq<CommandView> {
    v.map_values(|c: PaletteCommand| c@)
}

/// The commands, in the order in which the palette lists them.
pub open spec fn registry() -> Seq<CommandView> {
    seq![
        CommandView {
            id: "NewTab"@,
            title: "New Tab"@,
            keywords: seq!["connection"@, "open"@, "connect"@],
            keybinding: Some("⌘T"@),
            when: PaletteWhen::Always,
        },
        CommandView {
            id: "CloseTab"@,
            title: "Close Tab"@,
            keywords: seq!["close"@, "dismiss"@],
            keybinding: Some("⌘W"@),
            when: PaletteWhen::HasTabs,
        },
        CommandView {
            id: "RefreshPane"@,
            title: "Refresh"@,
            keywords: seq!["reload"@, "update"@, "list"@],
            keybinding: Some("⌘R"@),
            when: PaletteWhen::HasActiveTab,
        },
        CommandView {
            id: "FocusLocalPane"@,
            title: "Focus Local Pane"@,
            keywords: seq!["left"@, "local"@, "side"@],
            keybinding: Some("⌘1"@),
            when: PaletteWhen::HasActiveTab,
        },
        CommandView {
            id: "FocusRemotePane"@,
            title: "Focus Remote Pane"@,
            keywords: seq!["right"@, "remote"@, "side"@, "server"@],
            keybinding: Some("⌘2"@),
            when: PaletteWhen::HasActiveTab,
        },
        CommandView {
            id: "UploadSelection"@,
            title: "Upload Selection"@,
            keywords: seq!["put"@, "send"@, "transfer"@],
            keybinding: Some("⌘U"@),
            when: PaletteWhen::HasActiveTab,
        },
        CommandView {
            id: "DownloadSelection"@,
            title: "Download Selection"@,
            keywords: seq!["get"@, "receive"@, "transfer"@],
            keybinding: Some("⌘D"@),
            when: PaletteWhen::ConnectedRemote,
        },
        CommandView {
            id: "ShowTransferDrawer"@,
            title: "Toggle Transfers"@,
            keywords: seq!["queue"@, "jobs"@, "progress"@],
            keybinding: Some("⌘J"@),
            when: PaletteWhen::Always,
        },
        CommandView {
            id: "OpenSettings"@,
            title: "Open Settings"@,
            keywords: seq!["preferences"@, "options"@, "config"@],
            keybinding: Some("⌘,"@),
            when: PaletteWhen::Always,
        },
        CommandView {
            id: "OpenProfiles"@,
            title: "Manage Profiles"@,
            keywords: seq!["profile"@, "credentials"@, "settings"@],
            keybinding: None,
            when: PaletteWhen::Always,
        },
        CommandView {
            id: "ShowAbout"@,
            title: "About macSFTP"@,
            keywords: seq!["version"@, "info"@],
            keybinding: None,
            when: PaletteWhen::Always,
        },
        CommandView {
            id: "DeleteSelection"@,
            title: "Delete Selection"@,
            keywords: seq!["remove"@, "trash"@, "rm"@],
            keybinding: Some("⌘⌫"@),
            when: PaletteWhen::HasActiveTab,
        },
        CommandView {
            id: "RenameEntry"@,
            title: "Rename"@,
            keywords: seq!["mv"@, "move"@, "name"@],
            keybinding: Some("F2"@),
            when: PaletteWhen::HasActiveTab,
        },
        CommandView {
            id: "NewFolder"@,
            title: "New Folder"@,
            keywords: seq!["mkdir"@, "directory"@, "create"@],
            keybinding: Some("⌘⇧N"@),
            when: PaletteWhen::HasActiveTab,
        },
        CommandView {
            id: "FilterPane"@,
            title: "Filter Pane"@,
            keywords: seq!["search"@, "find"@, "narrow"@],
            keybinding: Some("⌘F"@),
            when: PaletteWhen::HasActiveTab,
        },
        CommandView {
            id: "GoToPath"@,
            title: "Go to Path"@,
            keywords: seq!["jump"@, "cd"@, "location"@],
            keybinding: Some("⌘⇧G"@),
            when: PaletteWhen::HasActiveTab,
        },
        CommandView {
            id: "NavigateBack"@,
            title: "Back"@,
            keywords: seq!["history"@, "previous"@],
            keybinding: Some("⌘["@),
            when: PaletteWhen::HasActiveTab,
        },
        CommandView {
            id: "NavigateForward"@,
            title: "Forward"@,
            keywords: seq!["history"@, "next"@],
            keybinding: Some("⌘]"@),
            when: PaletteWhen::HasActiveTab,
        },
        CommandView {
            id: "ParentDirectory"@,
            title: "Parent Directory"@,
            keywords: seq!["up"@, "cd.."@, "parent"@, "folder"@],
            keybinding: Some("⌘↑"@),
            when: PaletteWhen::HasActiveTab,
        },
        CommandView {
            id: "ToggleHiddenFiles"@,
            title: "Show Hidden Files"@,
            keywords: seq!["dotfiles"@, "hidden"@, "toggle"@],
            keybinding: Some("⌘⇧."@),
            when: PaletteWhen::Always,
        },
        CommandView {
            id: "CopyPath"@,
            title: "Copy Path"@,
            keywords: seq!["clipboard"@, "path"@],
            keybinding: Some("⌘⇧C"@),
            when: PaletteWhen::HasActiveTab,
        },
        CommandView {
            id: "ReconnectTab"@,
            title: "Reconnect"@,
            keywords: seq!["retry"@, "connect"@, "session"@],
            keybinding: Some("⌘⇧R"@),
            when: PaletteWhen::HasActiveTab,
        },
        CommandView {
            id: "OpenLogFolder"@,
            title: "Open Log Folder"@,
            keywords: seq!["logs"@, "diagnostics"@, "debug"@],
            keybinding: None,
            when: PaletteWhen::Always,
        },
        CommandView {
            id: "OpenCommandPalette"@,
            title: "Command Palette"@,
            keywords: seq!["commands"@, "actions"@, "search"@],
            keybinding: Some("⌘⇧P"@),
            when: PaletteWhen::Always,
        },
    ]
}

fn words2(a: &'static str, b: &'static str) -> (r: Vec<&'static str>)
    ensures
        words(r@) == seq![a@, b@],
{
    let mut out: Vec<&'static str> = Vec::new();
    out.push(a);
    out.push(b);
    assert(words(out@) =~= seq![a@, b@]);
    out
}

fn words3(a: &'static str, b: &'static str, c: &'static str) -> (r: Vec<&'static str>)
    ensures
        words(r@) == seq![a@, b@, c@],
{
    let mut out: Vec<&'static str> = Vec::new();
    out.push(a);
    out.push(b);
    out.push(c);
    assert(words(out@) =~= seq![a@, b@, c@]);
    out
}

fn words4(
    a: &'static str,
    b: &'static str,
    c: &'static str,
    d: &'static str,
) -> (r: Vec<&'static str>)
    ensures
        words(r@) == seq![a@, b@, c@, d@],
{
    let mut out: Vec<&'static str> = Vec::new();
    out.push(a);
    out.push(b);
    out.push(c);
    out.push(d);
    assert(words(out@) =~= seq![a@, b@, c@, d@]);
    out
}

fn command(
    id: &'static str,
    title: &'static str,
    keywords: Vec<&'static str>,
    keybinding: Option<&'static str>,
    when: PaletteWhen,
) -> (r: PaletteCommand)
    ensures
        r@ == (CommandView {
            id: id@,
            title: title@,
            keywords: words(keywords@),
            keybinding: match keybinding {
                Some(key) => Some(key@),
                None => None,
            },
            when,
        }),
{
    PaletteCommand { id, title, keywords, keybinding, when }
}

/// The commands, in the order in which the palette lists them.
pub fn all_palette_commands() -> (r: Vec<PaletteCommand>)
    ensures
        commands(r@) == registry(),
{
    let mut out: Vec<PaletteCommand> = Vec::new();
    out.push(
        command("NewTab", "New Tab", words3("connection", "open", "connect"), Some("⌘T"), PaletteWhen::Always),
    );
    out.push(
        command("CloseTab", "Close Tab", words2("close", "dismiss"), Some("⌘W"), PaletteWhen::HasTabs),
    );
    out.push(
        command("RefreshPane", "Refresh", words3("reload", "update", "list"), Some("⌘R"), PaletteWhen::HasActiveTab),
    );
    out.push(
        command("FocusLocalPane", "Focus Local Pane", words3("left", "local", "side"), Some("⌘1"), PaletteWhen::HasActiveTab),
    );
    out.push(
        command("FocusRemotePane", "Focus Remote Pane", words4("right", "remote", "side", "server"), Some("⌘2"), PaletteWhen::HasActiveTab),
    );
    out.push(
        command("UploadSelection", "Upload Selection", words3("put", "send", "transfer"), Some("⌘U"), PaletteWhen::HasActiveTab),
    );
    out.push(
        command("DownloadSelection", "Download Selection", words3("get", "receive", "transfer"), Some("⌘D"), PaletteWhen::ConnectedRemote),
    );
    out.push(
        command("ShowTransferDrawer", "Toggle Transfers", words3("queue", "jobs", "progress"), Some("⌘J"), PaletteWhen::Always),
    );
    out.push(
        command("OpenSettings", "Open Settings", words3("preferences", "options", "config"), Some("⌘,"), PaletteWhen::Always),
    );
    out.push(
        command("OpenProfiles", "Manage Profiles", words3("profile", "credentials", "settings"), None, PaletteWhen::Always),
    );
    out.push(
        command("ShowAbout", "About macSFTP", words2("version", "info"), None, PaletteWhen::Always),
    );
    out.push(
        command("DeleteSelection", "Delete Selection", words3("remove", "trash", "rm"), Some("⌘⌫"), PaletteWhen::HasActiveTab),
    );
    out.push(
        command("RenameEntry", "Rename", words3("mv", "move", "name"), Some("F2"), PaletteWhen::HasActiveTab),
    );
    out.push(
        command("NewFolder", "New Folder", words3("mkdir", "directory", "create"), Some("⌘⇧N"), PaletteWhen::HasActiveTab),
    );
    out.push(
        command("FilterPane", "Filter Pane", words3("search", "find", "narrow"), Some("⌘F"), PaletteWhen::HasActiveTab),
    );
    out.push(
        command("GoToPath", "Go to Path", words3("jump", "cd", "location"), Some("⌘⇧G"), PaletteWhen::HasActiveTab),
    );
    out.push(
        command("NavigateBack", "Back", words2("history", "previous"), Some("⌘["), PaletteWhen::HasActiveTab),
    );
    out.push(
        command("NavigateForward", "Forward", words2("history", "next"), Some("⌘]"), PaletteWhen::HasActiveTab),
    );
    out.push(
        command("ParentDirectory", "Parent Directory", words4("up", "cd..", "parent", "folder"), Some("⌘↑"), PaletteWhen::HasActiveTab),
    );
    out.push(
        command("ToggleHiddenFiles", "Show Hidden Files", words3("dotfiles", "hidden", "toggle"), Some("⌘⇧."), PaletteWhen::Always),
    );
    out.push(
        command("CopyPath", "Copy Path", words2("clipboard", "path"), Some("⌘⇧C"), PaletteWhen::HasActiveTab),
    );
    out.push(
        command("ReconnectTab", "Reconnect", words3("retry", "connect", "session"), Some("⌘⇧R"), PaletteWhen::HasActiveTab),
    );
    out.push(
        command("OpenLogFolder", "Open Log Folder", words3("logs", "diagnostics", "debug"), None, PaletteWhen::Always),
    );
    out.push(
        command("OpenCommandPalette", "Command Palette", words3("commands", "actions", "search"), Some("⌘⇧P"), PaletteWhen::Always),
    );
    assert(commands(out@) =~= registry());
    out
}

/// The first command with the given id.
pub open spec fn command_with_id(list: Seq<CommandView>, id: Seq<char>) -> Option<CommandView>
    decreases list.len(),
{
    if list.len() == 0 {
        None
    } else if list[0].id == id {
        Some(list[0])
    } else {
        command_with_id(list.drop_first(), id)
    }
}

/// The key that a tooltip shows for a command.
pub open spec fn shortcut(id: Seq<char>) -> Option<Seq<char>> {
    match command_with_id(registry(), id) {
        Some(command) => command.keybinding,
        None => None,
    }
}

/// The key that a tooltip shows for a command, where the command exists and has one.
pub fn keybinding_for(command_id: &str) -> (r: Option<&'static str>)
    ensures
        r is Some <==> shortcut(command_id@) is Some,
        r is Some ==> r->0@ == shortcut(command_id@)->0,
{
    let all = all_palette_commands();
    let mut i: usize = 0;
    assert(registry().skip(0) =~= registry());
    while i < all.len()
        invariant
            i <= all@.len(),
            commands(all@) == registry(),
            command_with_id(registry(), command_id@) == command_with_id(
                registry().skip(i as int),
                command_id@,
            ),
        decreases all@.len() - i,
    {
        assert(registry()[i as int] == all@[i as int]@);
        assert(registry().skip(i as int).drop_first() =~= registry().skip(i + 1));
        if same_text(all[i].id, command_id) {
            return all[i].keybinding;
        }
        i += 1;
    }
    None
}

/// A label with the key of a command behind it, where the command has one.
pub open spec fn labeled(label: Seq<char>, id: Seq<char>) -> Seq<char> {
    match shortcut(id) {
        Some(key) => label + " ("@ + key + ")"@,
        None => label,
    }
}

/// A label with the key of a command in brackets behind it; the label alone where there is no
/// such command or it has no key.
pub fn labeled_shortcut(label: &str, command_id: &str) -> (r: String)
    ensures
        r@ == labeled(label@, command_id@),
{
    match keybinding_for(command_id) {
        Some(key) => {
            let mut out = joined(label, " (");
            out.append(key);
            out.append(")");
            out
        },
        None => label.to_string(),
    }
}

/// A command is on offer in the given context.
pub open spec fn offered(when: PaletteWhen, ctx: PaletteContext) -> bool {
    match when {
        PaletteWhen::Always => true,
        PaletteWhen::HasTabs => ctx.has_tabs,
        PaletteWhen::HasActiveTab => ctx.has_active_tab,
        PaletteWhen::ConnectedRemote => ctx.remote_connected,
    }
}

/// Whether a command is on offer in the given context.
pub fn when_matches(when: PaletteWhen, ctx: &PaletteContext) -> (r: bool)
    ensures
        r == offered(when, *ctx),
{
    match when {
        PaletteWhen::Always => true,
        PaletteWhen::HasTabs => ctx.has_tabs,
        PaletteWhen::HasActiveTab => ctx.has_active_tab,
        PaletteWhen::ConnectedRemote => ctx.remote_connected,
    }
}

/// The text occurs in the lower case of a command's title or of one of its keywords.
pub open spec fn mentions(command: CommandView, needle: Seq<char>) -> bool {
    ||| has_text(lowercase(command.title), needle)
    ||| exists|i: int|
        0 <= i < command.keywords.len() && has_text(
            lowercase(#[trigger] command.keywords[i]),
            needle,
        )
}

/// Whether the text occurs in the lower case of the title or of a keyword.
pub fn title_or_keywords_match(command: &PaletteCommand, needle: &str) -> (r: bool)
    ensures
        r == mentions(command@, needle@),
{
    if contains_text(to_lowercase(command.title).as_str(), needle) {
        return true;
    }
    let mut i: usize = 0;
    while i < command.keywords.len()
        invariant
            i <= command.keywords@.len(),
            forall|j: int|
                0 <= j < i ==> !has_text(lowercase(#[trigger] command@.keywords[j]), needle@),
        decreases command.keywords@.len() - i,
    {
        let keyword = command.keywords[i];
        assert(command@.keywords[i as int] == keyword@);
        if contains_text(to_lowercase(keyword).as_str(), needle) {
            return true;
        }
        i += 1;
    }
    false
}

/// A command that the palette shows for a query.
pub open spec fn shown(query: Seq<char>, ctx: PaletteContext) -> spec_fn(CommandView) -> bool {
    |command: CommandView|
        {
            let needle = lowercase(trimmed(query));
            offered(command.when, ctx) && (needle.len() == 0 || mentions(command, needle))
        }
}

/// The commands that are on offer and whose title or keywords hold the query, in any case.
pub fn filter_palette_commands(query: &str, ctx: &PaletteContext) -> (r: Vec<PaletteCommand>)
    ensures
        commands(r@) == registry().filter(shown(query@, *ctx)),
{
    let needle = to_lowercase(trim(query).as_str());
    let mut rest = all_palette_commands();
    let ghost all = rest@;
    let ghost keep = shown(query@, *ctx);
    let mut out: Vec<PaletteCommand> = Vec::new();
    let count: usize = rest.len();
    let mut i: usize = 0;
    assert(commands(out@) =~= Seq::<CommandView>::empty());
    assert(registry().take(0).filter(keep) =~= Seq::<CommandView>::empty()) by {
        reveal(Seq::filter);
    }
    while i < count
        invariant
            i <= count,
            count == all.len(),
            commands(all) == registry(),
            rest@ == all.skip(i as int),
            keep == shown(query@, *ctx),
            needle@ == lowercase(trimmed(query@)),
            commands(out@) == registry().take(i as int).filter(keep),
        decreases count - i,
    {
        let command = rest.remove(0);
        assert(command == all[i as int]);
        assert(registry()[i as int] == command@);
        assert(rest@ =~= all.skip(i + 1));
        proof {
            lemma_filter_take(registry(), keep, i as int);
        }
        if when_matches(command.when, ctx) && (needle.as_str().is_empty() || title_or_keywords_match(
            &command,
            needle.as_str(),
        )) {
            let ghost held = out@;
            out.push(command);
            assert(commands(out@) =~= commands(held).push(command@));
        }
        i += 1;
    }
    assert(registry().take(i as int) =~= registry());
    out
}

/// A query of white space finds every command that is on offer.
pub proof fn law_blank_query_finds_all(query: Seq<char>, ctx: PaletteContext, command: CommandView)
    requires
        trimmed(query).len() == 0,
    ensures
        registry().filter(shown(query, ctx)).contains(command) <==> registry().contains(command)
            && offered(command.when, ctx),
{
    lemma_filter_holds(registry(), shown(query, ctx));
    assert(all_ascii(trimmed(query)));
    assert(lowercase(trimmed(query)).len() == 0);
}

/// A command that is not on offer is found by no query.
pub proof fn law_hidden_command_is_not_found(
    query: Seq<char>,
    ctx: PaletteContext,
    command: CommandView,
)
    requires
        !offered(command.when, ctx),
    ensures
        !registry().filter(shown(query, ctx)).contains(command),
{
    lemma_filter_holds(registry(), shown(query, ctx));
}

/// Queries in ASCII that differ only in the case of letters find the same commands.
pub proof fn law_case_does_not_matter(a: Seq<char>, b: Seq<char>, ctx: PaletteContext)
    requires
        all_ascii(a),
        all_ascii(b),
        ascii_lowercase(a) == ascii_lowercase(b),
    ensures
        registry().filter(shown(a, ctx)) == registry().filter(shown(b, ctx)),
{
    lemma_trimmed_ascii(a);
    lemma_trimmed_ascii(b);
    lemma_trimmed_lowercase(a);
    lemma_trimmed_lowercase(b);
    assert(lowercase(trimmed(a)) == lowercase(trimmed(b)));
    assert(shown(a, ctx) =~= shown(b, ctx));
}

}
