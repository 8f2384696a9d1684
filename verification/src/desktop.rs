//! Decisions of the desktop shell: closing to the tray, the build variant and
//! the updater target, and the codes of updater errors.
use vstd::prelude::*;

use crate::text::{concat, trim};

verus! {

/// Whether closing the main window only hides it: the user asked for it and a
/// tray icon exists to bring the window back.
pub fn should_hide_on_close(preference: bool, tray_available: bool) -> (r: bool)
    ensures
        r == (preference && tray_available),
{
    preference && tray_available
}

/// The build variant: `cuda` for builds with GPU recognition, else `standard`.
pub fn variant(cuda: bool) -> (r: &'static str)
    ensures
        r@ == (if cuda {
            "cuda"@
        } else {
            "standard"@
        }),
{
    if cuda {
        "cuda"
    } else {
        "standard"
    }
}

/// The updater artifact target of a build variant; only Windows artifacts are signed.
pub fn target(variant: &str) -> (r: String)
    ensures
        r@ == "windows-x86_64-"@ + variant@,
{
    concat("windows-x86_64-", variant)
}

/// Whether the updater can be offered: a signing key that is not blank.
pub fn updater_available(public_key: Option<&str>) -> (r: bool)
    ensures
        r == match public_key {
            Some(k) => trim(k@).len() > 0,
            None => false,
        },
{
    match public_key {
        Some(k) => !crate::text::is_blank(k),
        None => false,
    }
}

/// Why an update command was rejected.
#[derive(Clone, Copy, Debug, PartialEq, Eq, Structural)]
pub enum UpdateError {
    Unavailable,
    Busy,
    NoPendingUpdate,
    Failed,
}

/// The code an update error is reported with.
pub open spec fn update_error_code(e: UpdateError) -> Seq<char> {
    match e {
        UpdateError::Unavailable => "update.unavailable"@,
        UpdateError::Busy => "update.busy"@,
        UpdateError::NoPendingUpdate => "update.no_pending"@,
        UpdateError::Failed => "update.failed"@,
    }
}

impl UpdateError {
    /// The code the error is reported with.
    pub fn code(self) -> (r: &'static str)
        ensures
            r@ == update_error_code(self),
    {
        match self {
            UpdateError::Unavailable => "update.unavailable",
            UpdateError::Busy => "update.busy",
            UpdateError::NoPendingUpdate => "update.no_pending",
            UpdateError::Failed => "update.failed",
        }
    }
}

/// The port the core listens on in development builds; it avoids the
/// ports of Anki (8765) and VRChat OSC (9000, 9001).
pub const DEFAULT_CORE_PORT: u16 = 8766;

/// How the desktop shell reaches its core.
#[derive(Clone, Debug)]
pub struct CoreConnection {
    pub http_url: String,
    pub ws_url: String,
    pub token: String,
}

/// The URLs of a core on `port` of the loopback interface.
pub open spec fn core_urls(port: u16) -> (Seq<char>, Seq<char>) {
    (
        "http://127.0.0.1:"@ + crate::text::decimal(port as nat),
        "ws://127.0.0.1:"@ + crate::text::decimal(port as nat) + "/ws"@,
    )
}

/// The connection to a new core: `DEFAULT_CORE_PORT` in development builds,
/// else `free_port`, with a random session token.
pub fn core_connection_config(free_port: Option<u16>) -> (r: CoreConnection)
    ensures
        (r.http_url@, r.ws_url@) == core_urls(
            match free_port {
                Some(p) => p,
                None => DEFAULT_CORE_PORT,
            },
        ),
        crate::ids::simple(r.token@),
{
    let port = match free_port {
        Some(p) => p,
        None => DEFAULT_CORE_PORT,
    };
    let digits = crate::text::decimal_string(port as u64);
    let http_url = concat("http://127.0.0.1:", digits.as_str());
    let mut ws_url = concat("ws://127.0.0.1:", digits.as_str());
    crate::text::push_str(&mut ws_url, "/ws");
    CoreConnection { http_url, ws_url, token: crate::ids::random_simple_uuid() }
}

/// Whether the legacy `.vrcs` data directory should be moved to the new
/// root: only while the new root does not exist and the legacy one does.
pub fn should_migrate_data_dir(current_exists: bool, legacy_exists: bool) -> (r: bool)
    ensures
        r == (!current_exists && legacy_exists),
{
    !current_exists && legacy_exists
}

} // verus!
