//! Small rules that several parts of the client share.

use vstd::prelude::*;

use crate::model::{ConnectionState, ProfileId, RecentEntry};
use crate::nav::{child, child_of};
use crate::tabs::TabState;
use crate::text::{
    chars_of, decimal, decimal_text, file_name, file_name_in, joined3, starts_with_text,
    trim_end_slashes, without_end_slashes,
};

verus! {

/// `user@host:port`.
pub open spec fn endpoint(username: Seq<char>, host: Seq<char>, port: u16) -> Seq<char> {
    username + "@"@ + host + ":"@ + decimal(port as nat)
}

/// `user@host:port`.
pub fn endpoint_text(username: &str, host: &str, port: u16) -> (r: String)
    ensures
        r@ == endpoint(username@, host@, port),
{
    let mut out = joined3(username, "@", host);
    out.append(":");
    out.append(decimal_text(port as u64).as_str());
    out
}

/// The label of a recent connection.
pub open spec fn recent_label(entry: RecentEntry) -> Seq<char> {
    if entry.display_name is Some && entry.display_name->0@.len() > 0 {
        entry.display_name->0@ + " · "@ + endpoint(entry.username@, entry.host@, entry.port)
    } else {
        endpoint(entry.username@, entry.host@, entry.port)
    }
}

/// The label of a recent connection: its endpoint, behind its name where it has one.
pub fn format_recent_label(entry: &RecentEntry) -> (r: String)
    ensures
        r@ == recent_label(*entry),
{
    let place = endpoint_text(entry.username.as_str(), entry.host.as_str(), entry.port);
    match &entry.display_name {
        Some(name) => {
            if name.as_str().is_empty() {
                place
            } else {
                joined3(name.as_str(), " · ", place.as_str())
            }
        },
        None => place,
    }
}

/// A connection attempt is under way.
pub open spec fn in_flight(connection: ConnectionState) -> bool {
    connection is Connecting || connection is AwaitingHostKey || connection is AwaitingCredentials
        || connection is Reconnecting
}

/// Whether a connection attempt is under way.
pub fn connection_in_flight(connection: &ConnectionState) -> (r: bool)
    ensures
        r == in_flight(*connection),
{
    match connection {
        ConnectionState::Connecting { .. } => true,
        ConnectionState::AwaitingHostKey { .. } => true,
        ConnectionState::AwaitingCredentials { .. } => true,
        ConnectionState::Reconnecting { .. } => true,
        _ => false,
    }
}

/// A path with a leading `~/` put below the home directory, where that is known.
pub open spec fn home_expanded(path: Seq<char>, home: Option<Seq<char>>) -> Seq<char> {
    if "~/"@.is_prefix_of(path) && home is Some {
        without_end_slashes(home->0) + "/"@ + path.skip(2)
    } else {
        path
    }
}

/// The view of an optional text.
pub open spec fn text_of(t: Option<&str>) -> Option<Seq<char>> {
    match t {
        Some(t) => Some(t@),
        None => None,
    }
}

/// The view of an optional text.
pub open spec fn string_of(t: Option<String>) -> Option<Seq<char>> {
    match t {
        Some(t) => Some(t@),
        None => None,
    }
}

/// Puts a leading `~/` below the home directory, where that is known.
pub fn expand_home(path: &str, home: Option<&str>) -> (r: String)
    ensures
        r@ == home_expanded(path@, text_of(home)),
{
    if starts_with_text(path, "~/") {
        if let Some(home) = home {
            proof {
                reveal_strlit("~/");
            }
            let mut out = trim_end_slashes(home);
            out.append("/");
            let count: usize = chars_of(path).len();
            out.append(path.substring_char(2, count));
            assert(path@.subrange(2, path@.len() as int) =~= path@.skip(2));
            return out;
        }
    }
    path.to_string()
}

/// The epoch and profile under which a tab can start transfers.
pub open spec fn transfer_session(tab: TabState) -> Option<(u64, ProfileId)> {
    match tab.connection {
        ConnectionState::Connected { session_epoch, .. } => Some(
            (
                session_epoch,
                match tab.profile_id {
                    Some(id) => id,
                    None => ProfileId(0),
                },
            ),
        ),
        _ => None,
    }
}

/// The epoch and profile under which a tab can start transfers, while it is connected.
pub fn connected_transfer_session(tab: &TabState) -> (r: Option<(u64, ProfileId)>)
    ensures
        r == transfer_session(*tab),
{
    match &tab.connection {
        ConnectionState::Connected { session_epoch, .. } => {
            let profile = match tab.profile_id {
                Some(id) => id,
                None => ProfileId(0),
            };
            Some((*session_epoch, profile))
        },
        _ => None,
    }
}

/// The path below `directory` that has the file name of `source`.
pub open spec fn path_with_name_of(directory: Seq<char>, source: Seq<char>) -> Option<Seq<char>> {
    match file_name(source) {
        Some(name) => Some(child(directory, name)),
        None => None,
    }
}

fn append_name(directory: &str, source: &str) -> (r: Option<String>)
    ensures
        string_of(r) == path_with_name_of(directory@, source@),
{
    match file_name_in(source) {
        Some(name) => Some(child_of(directory, name.as_str())),
        None => None,
    }
}

/// The remote path at which an uploaded file lands.
pub fn append_remote_name(directory: &str, source: &str) -> (r: Option<String>)
    ensures
        string_of(r) == path_with_name_of(directory@, source@),
{
    append_name(directory, source)
}

/// The local path at which a downloaded file lands.
pub fn append_local_name(directory: &str, source: &str) -> (r: Option<String>)
    ensures
        string_of(r) == path_with_name_of(directory@, source@),
{
    append_name(directory, source)
}

}
