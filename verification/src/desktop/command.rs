use vstd::prelude::*;

verus! {

/// A request from the tray or a hotkey to the synchronisation loop.
#[derive(Debug, Clone, Copy, PartialEq, Eq, Structural)]
pub enum SyncCommand {
    SyncUpload,
    SyncDownload,
    ToggleAutoSync,
    CopyAndSync,
    SyncAndPaste,
    /// Close the session with the server and stop: the client is quitting.
    Shutdown,
}

/// What the synchronisation loop reports to the tray.
#[derive(Debug, Clone)]
pub struct SyncStatus {
    pub connected: bool,
    pub auto_sync: bool,
    pub last_sync_time: String,
    pub last_sync_from: String,
}

} // verus!
