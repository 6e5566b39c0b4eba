//! The commands that a session takes, by name.

use vstd::prelude::*;

verus! {

/// Which command a message to the session carries.
#[derive(Debug, Clone, Copy, PartialEq, Eq, Structural)]
pub enum ApiKind {
    /// Gives the session its file.
    SetSessionFile,
    /// Asks for the path of the session file.
    GetSessionFile,
    /// Appends text to the session file.
    WriteSessionFile,
    /// Flushes what waits to be written.
    FlushSessionFile,
    /// Scans the session file for new lines.
    UpdateSession,
    /// Tells that the source of the session file has been read to its end.
    FileRead,
    /// Asks for lines of the session file.
    Grab,
    /// Sets the length that the search map is scaled to.
    SetStreamLen,
    /// Asks for the number of lines of the session file.
    GetStreamLen,
    /// Asks for the number of lines of the search result.
    GetSearchResultLen,
    /// Scans the search result file for new lines.
    UpdateSearchResult,
    /// Takes the search holder out of the session.
    GetSearchHolder,
    /// Gives the search holder back to the session.
    SetSearchHolder,
    /// Forgets the search.
    DropSearch,
    /// Asks for lines of the search result.
    GrabSearch,
    /// Asks for a copy of the search map.
    GetSearchMap,
    /// Replaces the matches of the search map.
    SetMatches,
    /// Closes the session.
    CloseSession,
    /// Turns tracing on or off.
    SetDebugMode,
    /// Tells that an operation is being cancelled.
    NotifyCancelingOperation,
    /// Tells that an operation is cancelled for good.
    NotifyCanceledOperation,
    /// Ends the task of the session.
    Shutdown,
}

/// The name of a command as it stands in a log or in an error.
pub open spec fn api_name(kind: ApiKind) -> Seq<char> {
    match kind {
        ApiKind::SetSessionFile => "SetSessionFile"@,
        ApiKind::GetSessionFile => "GetSessionFile"@,
        ApiKind::WriteSessionFile => "WriteSessionFile"@,
        ApiKind::FlushSessionFile => "FlushSessionFile"@,
        ApiKind::UpdateSession => "UpdateSession"@,
        ApiKind::FileRead => "FileRead"@,
        ApiKind::Grab => "Grab"@,
        ApiKind::SetStreamLen => "SetStreamLen"@,
        ApiKind::GetStreamLen => "GetStreamLen"@,
        ApiKind::GetSearchResultLen => "GetSearchResultLen"@,
        ApiKind::UpdateSearchResult => "UpdateSearchResult"@,
        ApiKind::GetSearchHolder => "GetSearchHolder"@,
        ApiKind::SetSearchHolder => "SetSearchHolder"@,
        ApiKind::DropSearch => "DropSearch"@,
        ApiKind::GrabSearch => "GrabSearch"@,
        ApiKind::GetSearchMap => "GetSearchMap"@,
        ApiKind::SetMatches => "SetMatches"@,
        ApiKind::CloseSession => "CloseSession"@,
        ApiKind::SetDebugMode => "SetDebugMode"@,
        ApiKind::NotifyCancelingOperation => "NotifyCancelingOperation"@,
        ApiKind::NotifyCanceledOperation => "NotifyCanceledOperation"@,
        ApiKind::Shutdown => "Shutdown"@,
    }
}

impl ApiKind {
    /// The name of the command.
    pub fn name(&self) -> (name: &'static str)
        ensures
            name@ == api_name(*self),
    {
        match self {
            ApiKind::SetSessionFile => "SetSessionFile",
            ApiKind::GetSessionFile => "GetSessionFile",
            ApiKind::WriteSessionFile => "WriteSessionFile",
            ApiKind::FlushSessionFile => "FlushSessionFile",
            ApiKind::UpdateSession => "UpdateSession",
            ApiKind::FileRead => "FileRead",
            ApiKind::Grab => "Grab",
            ApiKind::SetStreamLen => "SetStreamLen",
            ApiKind::GetStreamLen => "GetStreamLen",
            ApiKind::GetSearchResultLen => "GetSearchResultLen",
            ApiKind::UpdateSearchResult => "UpdateSearchResult",
            ApiKind::GetSearchHolder => "GetSearchHolder",
            ApiKind::SetSearchHolder => "SetSearchHolder",
            ApiKind::DropSearch => "DropSearch",
            ApiKind::GrabSearch => "GrabSearch",
            ApiKind::GetSearchMap => "GetSearchMap",
            ApiKind::SetMatches => "SetMatches",
            ApiKind::CloseSession => "CloseSession",
            ApiKind::SetDebugMode => "SetDebugMode",
            ApiKind::NotifyCancelingOperation => "NotifyCancelingOperation",
            ApiKind::NotifyCanceledOperation => "NotifyCanceledOperation",
            ApiKind::Shutdown => "Shutdown",
        }
    }
}

} // verus!
