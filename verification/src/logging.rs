//! What the client writes to its log.

use vstd::prelude::*;

verus! {

/// What is logged unless the environment says otherwise. Of the SFTP service only the life of
/// connections is; what is browsed and transferred is not.
pub const DEFAULT_LOG_FILTER: &'static str =
    "macsftp=info,macsftp_platform=info,macsftp_storage=info,macsftp_sftp=off,macsftp_sftp::connection=debug";

/// The name of the log where its path has none.
pub const DEFAULT_LOG_NAME: &'static str = "macsftp.log";

/// How many old logs are kept.
pub const KEPT_LOGS: usize = 7;

/// How many bytes of old logs are kept.
pub const KEPT_LOG_BYTES: u64 = 52_428_800;

}
