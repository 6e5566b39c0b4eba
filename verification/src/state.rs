//! The session state and what each command does to it. The session is run
//! by one task that owns this state, takes one command after the other and
//! does the reading and writing of files; every decision is taken here.

use vstd::prelude::*;
use vstd::string::*;
use std::collections::HashMap;
use crate::events::{
    error_of, CallbackEvent, CallbackEventView, NativeError, NativeErrorKind, NativeErrorView,
};
use crate::grab_search::{
    all_parse, coalesce, coalesced, contents, finish_grab_search, grab_ranges, grabbed_ranges,
    no_line_number, out_of_range, parse_positions, parsed_positions, tagged, tags_fit,
};
use crate::grabber::{
    element_views, grab_error_text, grabbed_lines, range_in_text, range_text, GrabError,
    GrabMetadata, GrabbedContent, Grabber, GrabberView, LineRange,
};
use crate::map::{map_text, match_views, FilterMatch, FilterMatchView, SearchMap, SearchMapView};
use crate::search::{
    search_error_text, search_ran, start_of_run, SearchError, SearchHolder, SearchHolderView,
    SearchResults,
};
use tokio_util::sync::CancellationToken;

verus! {

/// After so many milliseconds without a flush, a write to the session file
/// is flushed at once.
pub const NOTIFY_IN_MS: u128 = 250;

/// Where the search holder of a session is.
#[derive(Debug)]
pub enum SearchHolderState {
    /// The session keeps the holder.
    Available(SearchHolder),
    /// The holder has been handed out and has not come back yet.
    InUse,
    /// No holder has been made yet.
    NotInited,
}

/// The mathematical value of a [`SearchHolderState`].
pub enum SearchHolderStateView {
    Available(SearchHolderView),
    InUse,
    NotInited,
}

impl View for SearchHolderState {
    type V = SearchHolderStateView;

    open spec fn view(&self) -> SearchHolderStateView {
        match self {
            SearchHolderState::Available(h) => SearchHolderStateView::Available(h@),
            SearchHolderState::InUse => SearchHolderStateView::InUse,
            SearchHolderState::NotInited => SearchHolderStateView::NotInited,
        }
    }
}

/// The file that a session works on.
#[derive(Debug)]
pub enum SessionFile {
    /// A file that exists already.
    Existed(String),
    /// A new file in the streams directory.
    ToBeCreated,
}

/// Whether a session still takes commands that change it.
#[derive(Debug, Clone, Copy, PartialEq, Eq, Structural)]
pub enum Status {
    Open,
    Closed,
}

impl SearchHolderState {
    /// Where the next run of the holder starts to read, if the session keeps
    /// the holder.
    pub fn start_position(&self, file_len: u64) -> (r: Option<Result<u64, SearchError>>)
        ensures
            match self@ {
                SearchHolderStateView::Available(h) => r matches Some(start) && match start_of_run(
                    h,
                    file_len,
                ) {
                    Ok(position) => start == Ok::<u64, SearchError>(position),
                    Err(why) => start matches Err(SearchError::IoOperation(m)) && m@ == why,
                },
                _ => r is None,
            },
    {
        match self {
            SearchHolderState::Available(h) => Some(h.start_position(file_len)),
            _ => None,
        }
    }

    /// Runs the search of the holder over `tail` if the session keeps the
    /// holder, and does nothing if it does not.
    pub fn execute_search(&mut self, tail: &[u8], cancel_token: &CancellationToken) -> (r: Option<
        SearchResults,
    >)
        ensures
            match old(self)@ {
                SearchHolderStateView::Available(before) => {
                    &&& r matches Some(results)
                    &&& final(self)@ matches SearchHolderStateView::Available(after)
                    &&& search_ran(results, after, before, tail@)
                },
                _ => r is None && final(self)@ == old(self)@,
            },
    {
        let mut state = SearchHolderState::NotInited;
        std::mem::swap(self, &mut state);
        match state {
            SearchHolderState::Available(mut h) => {
                let results = h.execute_search(tail, cancel_token);
                *self = SearchHolderState::Available(h);
                Some(results)
            },
            other => {
                *self = other;
                None
            },
        }
    }
}

/// The bytes that were written to the session but are not in the session
/// file yet.
#[derive(Debug)]
pub struct SessionWriter {
    pub pending: Vec<u8>,
}

/// Everything that a session keeps between two commands.
#[derive(Debug)]
pub struct SessionState {
    pub session_file: Option<String>,
    pub session_writer: Option<SessionWriter>,
    pub session_has_updates: bool,
    pub search_map: SearchMap,
    pub search_holder: SearchHolderState,
    pub content_grabber: Option<Grabber>,
    pub search_grabber: Option<Grabber>,
    pub cancelling_operations: HashMap<u128, bool>,
    pub status: Status,
    pub debug: bool,
}

/// The mathematical value of a [`SessionState`].
pub struct SessionStateView {
    pub session_file: Option<Seq<char>>,
    /// The bytes that wait to be flushed; `None` before the first write.
    pub session_writer: Option<Seq<u8>>,
    pub session_has_updates: bool,
    pub search_map: SearchMapView,
    pub search_holder: SearchHolderStateView,
    pub content_grabber: Option<GrabberView>,
    pub search_grabber: Option<GrabberView>,
    pub cancelling_operations: Set<u128>,
    pub status: Status,
    pub debug: bool,
}

impl View for SessionState {
    type V = SessionStateView;

    open spec fn view(&self) -> SessionStateView {
        SessionStateView {
            session_file: match self.session_file {
                Some(f) => Some(f@),
                None => None,
            },
            session_writer: match self.session_writer {
                Some(w) => Some(w.pending@),
                None => None,
            },
            session_has_updates: self.session_has_updates,
            search_map: self.search_map@,
            search_holder: self.search_holder@,
            content_grabber: match self.content_grabber {
                Some(g) => Some(g@),
                None => None,
            },
            search_grabber: match self.search_grabber {
                Some(g) => Some(g@),
                None => None,
            },
            cancelling_operations: self.cancelling_operations@.dom(),
            status: self.status,
            debug: self.debug,
        }
    }
}

/// What the first part of `UpdateSession` has decided.
#[derive(Debug)]
pub struct SessionUpdate {
    /// The event that tells of the new number of lines. It is there where
    /// the number has changed; the command then goes on with a run of the
    /// search holder.
    pub event: Option<CallbackEvent>,
    /// Whether the session file has more lines than before: the reply to
    /// the command.
    pub grown: bool,
}

/// How `UpdateSession` ends.
#[derive(Debug)]
pub struct UpdateEnd {
    /// The events to emit, in this order.
    pub events: Vec<CallbackEvent>,
    /// The reply to the command.
    pub reply: bool,
    /// What went wrong with the search, if anything did. It is logged; the
    /// command succeeds all the same.
    pub failure: Option<String>,
}

/// The mathematical value of an [`UpdateEnd`], with the session that it
/// leaves.
pub struct UpdateEndView {
    pub state: SessionStateView,
    pub events: Seq<CallbackEventView>,
    pub reply: bool,
    pub failure: Option<Seq<char>>,
}

/// The text of the error of a command that needs a session file before one
/// is assigned.
pub open spec fn not_assigned() -> NativeErrorView {
    error_of(NativeErrorKind::Grabber, "Session file isn't assigned yet"@)
}

/// The text of the error of a command that needs the content grabber before
/// there is one.
pub open spec fn no_grabber() -> NativeErrorView {
    error_of(NativeErrorKind::Grabber, "Grabber isn't inited"@)
}

/// The texts of the lines of the range in the search result file, as the
/// search grabber returns them, or the text of the error for which it
/// returns none.
pub open spec fn grabbed_numbers(
    grabber: GrabberView,
    range: LineRange,
    result_file: Result<Vec<u8>, GrabError>,
) -> Result<Seq<Seq<char>>, Seq<char>> {
    match result_file {
        Err(why) => Err(grab_error_text(why)),
        Ok(content) => if grabber.metadata is None {
            Err(grab_error_text(GrabError::NotInitialize))
        } else if !range_in_text(range, content@) {
            Err("Invalid range: ("@ + range_text(range) + ")"@)
        } else {
            Ok(contents(grabbed_lines(grabber.path, content@, range)))
        },
    }
}

/// The reply to a look for the search result file: the number of lines
/// found, 0 if the file is not there, or a grabber error with the reason for
/// which the scan failed.
pub open spec fn search_result_reply_is(
    r: Result<usize, NativeError>,
    scanned: Option<Result<usize, GrabError>>,
) -> bool {
    match scanned {
        None => r == Ok::<usize, NativeError>(0),
        Some(Ok(line_count)) => r == Ok::<usize, NativeError>(line_count),
        Some(Err(why)) => r matches Err(e) && e@ == error_of(
            NativeErrorKind::Grabber,
            grab_error_text(why),
        ),
    }
}

impl SessionStateView {
    /// A session that has done nothing yet.
    pub open spec fn initial() -> SessionStateView {
        SessionStateView {
            session_file: None,
            session_writer: None,
            session_has_updates: false,
            search_map: SearchMapView { entries: Seq::empty(), stream_len: 0 },
            search_holder: SearchHolderStateView::NotInited,
            content_grabber: None,
            search_grabber: None,
            cancelling_operations: Set::empty(),
            status: Status::Open,
            debug: false,
        }
    }

    /// The session has a file to write to.
    pub open spec fn assigned(self) -> bool {
        self.session_writer is Some || self.session_file is Some
    }

    /// The number of lines of the session file that the last scan found.
    pub open spec fn stream_len(self) -> nat {
        match self.content_grabber {
            Some(g) => g.line_count(),
            None => 0,
        }
    }

    /// The number of lines of the search result file that the last scan
    /// found.
    pub open spec fn search_result_len(self) -> nat {
        match self.search_grabber {
            Some(g) => g.line_count(),
            None => 0,
        }
    }

    /// `WriteSessionFile` on a session that has a file: the session after
    /// it, and the bytes that are to be appended to the session file and
    /// flushed now, if any. The bytes written wait with those that waited
    /// before; all of them are flushed if the last flush is more than
    /// `NOTIFY_IN_MS` milliseconds ago.
    pub open spec fn written(self, bytes: Seq<u8>, elapsed_ms: u128) -> (
        SessionStateView,
        Option<Seq<u8>>,
    ) {
        let pending = match self.session_writer {
            Some(p) => p + bytes,
            None => bytes,
        };
        if elapsed_ms > NOTIFY_IN_MS {
            (SessionStateView { session_writer: Some(Seq::empty()), ..self }, Some(pending))
        } else {
            (
                SessionStateView {
                    session_writer: Some(pending),
                    session_has_updates: true,
                    ..self
                },
                None,
            )
        }
    }

    /// `FlushSessionFile` on a session that has a file: the session after
    /// it, and the bytes that are to be appended to the session file and
    /// flushed now, if the session has updates.
    pub open spec fn flushed(self) -> (SessionStateView, Option<Seq<u8>>) {
        match self.session_writer {
            Some(pending) => if self.session_has_updates {
                (
                    SessionStateView {
                        session_writer: Some(Seq::empty()),
                        session_has_updates: false,
                        ..self
                    },
                    Some(pending),
                )
            } else {
                (self, None)
            },
            None => (self, None),
        }
    }

    /// `UpdateSession` on a session with a content grabber, after a scan of
    /// the session file found `line_count` lines: the session after it, the
    /// event that tells of the new length, if the length has changed, and the
    /// reply to the command, which is whether the file has more lines than
    /// before.
    pub open spec fn stream_scanned(self, line_count: usize) -> (
        SessionStateView,
        Option<CallbackEventView>,
        bool,
    ) {
        let grabber = self.content_grabber->0;
        (
            SessionStateView {
                content_grabber: Some(
                    GrabberView { metadata: Some(GrabMetadata { line_count }), ..grabber },
                ),
                ..self
            },
            if grabber.line_count() != line_count {
                Some(CallbackEventView::StreamUpdated(line_count as u64))
            } else {
                None
            },
            line_count > grabber.line_count(),
        )
    }

    /// The session after bytes that were handed out for the session file
    /// could not be written: they wait again, before all that has come since.
    pub open spec fn write_failed(self, unwritten: Seq<u8>) -> SessionStateView {
        SessionStateView {
            session_writer: Some(
                match self.session_writer {
                    Some(pending) => unwritten + pending,
                    None => unwritten,
                },
            ),
            session_has_updates: true,
            ..self
        }
    }

    /// The session with the matches of a run at the end of the search map.
    pub open spec fn matches_added(self, entries: Seq<FilterMatchView>) -> SessionStateView {
        SessionStateView {
            search_map: SearchMapView {
                entries: self.search_map.entries + entries,
                ..self.search_map
            },
            ..self
        }
    }

    /// The end of `UpdateSession` on a session whose file has changed, after
    /// the run of the search holder, if there was one, and after the look
    /// for the search result file, if the run succeeded.
    pub open spec fn update_ended(
        self,
        grown: bool,
        results: Option<SearchResults>,
        scanned: Option<Result<usize, GrabError>>,
    ) -> UpdateEndView {
        match results {
            None => UpdateEndView { state: self, events: Seq::empty(), reply: grown, failure: None },
            Some(Err(why)) => UpdateEndView {
                state: self,
                events: Seq::empty(),
                reply: grown,
                failure: Some("Fail to append search: "@ + search_error_text(why)),
            },
            Some(Ok((path, entries, _))) => {
                let looked = self.search_result_scanned(path@, scanned);
                match scanned {
                    Some(Err(why)) => UpdateEndView {
                        state: looked,
                        events: Seq::empty(),
                        reply: grown,
                        failure: Some("Fail to update search results: "@ + grab_error_text(why)),
                    },
                    _ => UpdateEndView {
                        state: looked.matches_added(match_views(entries@)),
                        events: seq![
                            CallbackEventView::SearchUpdated(
                                match scanned {
                                    Some(Ok(found)) => found as u64,
                                    _ => 0,
                                },
                            ),
                            CallbackEventView::SearchMapUpdated(
                                Some(map_text(match_views(entries@))),
                            ),
                        ],
                        reply: grown,
                        failure: None,
                    },
                }
            },
        }
    }

    /// The session after the caller has looked for the search result file
    /// `path`: as before if the file is not there; else with a search
    /// grabber, a new one over `path` if there was none, which keeps the
    /// number of lines that the scan found, if it found any.
    pub open spec fn search_result_scanned(
        self,
        path: Seq<char>,
        scanned: Option<Result<usize, GrabError>>,
    ) -> SessionStateView {
        let grabber = match self.search_grabber {
            Some(g) => g,
            None => GrabberView { path, metadata: None },
        };
        match scanned {
            None => self,
            Some(Err(_)) => SessionStateView { search_grabber: Some(grabber), ..self },
            Some(Ok(line_count)) => SessionStateView {
                search_grabber: Some(
                    GrabberView { metadata: Some(GrabMetadata { line_count }), ..grabber },
                ),
                ..self
            },
        }
    }

    /// The session after `SetMatches`.
    pub open spec fn set_matches(self, entries: Option<Seq<FilterMatchView>>) -> SessionStateView {
        SessionStateView {
            search_map: SearchMapView {
                entries: match entries {
                    Some(m) => m,
                    None => Seq::empty(),
                },
                ..self.search_map
            },
            ..self
        }
    }

    /// The session after the holder was taken out of it.
    pub open spec fn holder_taken(self) -> SessionStateView {
        SessionStateView { search_holder: SearchHolderStateView::InUse, ..self }
    }

    /// The holder that `GetSearchHolder` hands out: the one that the session
    /// keeps, or a fresh one without filters over the session file.
    pub open spec fn holder_to_take(self, uuid: u128) -> Option<SearchHolderView> {
        match self.search_holder {
            SearchHolderStateView::Available(h) => Some(h),
            SearchHolderStateView::InUse => None,
            SearchHolderStateView::NotInited => match self.session_file {
                Some(path) => Some(
                    SearchHolderView {
                        file_path: path,
                        out_file_path: path + ".out"@,
                        filters: Seq::empty(),
                        bytes_read: 0,
                        lines_read: 0,
                        uuid,
                    },
                ),
                None => None,
            },
        }
    }

    /// The session after a holder, or none, was given back to it.
    pub open spec fn holder_returned(self, holder: Option<SearchHolderView>) -> SessionStateView {
        SessionStateView {
            search_holder: match holder {
                Some(h) => SearchHolderStateView::Available(h),
                None => SearchHolderStateView::NotInited,
            },
            ..self
        }
    }

    /// The session after `DropSearch`, where the holder is not in use.
    pub open spec fn search_dropped(self) -> SessionStateView {
        SessionStateView {
            search_grabber: None,
            search_holder: SearchHolderStateView::NotInited,
            search_map: SearchMapView { entries: Seq::empty(), ..self.search_map },
            ..self
        }
    }
}

impl SessionState {
    /// A session that has done nothing yet.
    pub fn new() -> (state: SessionState)
        ensures
            state@ == SessionStateView::initial(),
    {
        let state = SessionState {
            session_file: None,
            session_writer: None,
            session_has_updates: false,
            search_map: SearchMap::new(),
            search_holder: SearchHolderState::NotInited,
            content_grabber: None,
            search_grabber: None,
            cancelling_operations: HashMap::new(),
            status: Status::Open,
            debug: false,
        };
        proof {
            assert(state@.cancelling_operations =~= Set::empty());
        }
        state
    }

    /// Whether `SetSessionFile` needs a new file to be made first: it does
    /// where the session has no content grabber yet and is given no file.
    pub fn needs_new_file(&self, session_file: &SessionFile) -> (b: bool)
        ensures
            b == (self@.content_grabber is None && session_file is ToBeCreated),
    {
        match session_file {
            SessionFile::ToBeCreated => self.content_grabber.is_none(),
            SessionFile::Existed(_) => false,
        }
    }

    /// `SetSessionFile`: where the session has no content grabber yet, it
    /// takes the given file, or the file `created` that was made for it, and
    /// gets a grabber over it that has not scanned the file yet. A session
    /// that has a grabber stays as it is.
    pub fn handle_set_session_file(&mut self, session_file: SessionFile, created: Option<String>)
        -> (r: Result<(), NativeError>)
        ensures
            old(self)@.content_grabber is Some ==> r is Ok && final(self)@ == old(self)@,
            old(self)@.content_grabber is None ==> match session_file {
                SessionFile::Existed(path) => r is Ok && final(self)@ == (SessionStateView {
                    session_file: Some(path@),
                    content_grabber: Some(GrabberView { path: path@, metadata: None }),
                    ..old(self)@
                }),
                SessionFile::ToBeCreated => match created {
                    Some(path) => r is Ok && final(self)@ == (SessionStateView {
                        session_file: Some(path@),
                        content_grabber: Some(GrabberView { path: path@, metadata: None }),
                        ..old(self)@
                    }),
                    None => {
                        &&& final(self)@ == old(self)@
                        &&& r matches Err(e)
                        &&& e@ == error_of(NativeErrorKind::Io, "Fail to create session file"@)
                    },
                },
            },
    {
        if self.content_grabber.is_some() {
            return Ok(());
        }
        let file = match session_file {
            SessionFile::Existed(path) => path,
            SessionFile::ToBeCreated => match created {
                Some(path) => path,
                None => {
                    return Err(
                        NativeError::new(NativeErrorKind::Io, "Fail to create session file"),
                    );
                },
            },
        };
        self.content_grabber = Some(Grabber::lazy(file.as_str()));
        self.session_file = Some(file);
        Ok(())
    }

    /// `GetSessionFile`: the path of the session file.
    pub fn get_session_file(&self) -> (r: Result<String, NativeError>)
        ensures
            match self@.session_file {
                Some(path) => r matches Ok(p) && p@ == path,
                None => r matches Err(e) && e@ == not_assigned(),
            },
    {
        match &self.session_file {
            Some(path) => Ok(path.clone()),
            None => Err(NativeError::grabber("Session file isn't assigned yet")),
        }
    }

    /// `GetStreamLen`: the number of lines of the session file that the last
    /// scan found.
    pub fn handle_get_stream_len(&self) -> (r: Result<usize, NativeError>)
        ensures
            match self@.content_grabber {
                Some(g) => match g.metadata {
                    Some(md) => r == Ok::<usize, NativeError>(md.line_count),
                    None => r matches Err(e) && e@ == error_of(
                        NativeErrorKind::Grabber,
                        "Metadata isn't inited yet"@,
                    ),
                },
                None => r matches Err(e) && e@ == no_grabber(),
            },
    {
        match &self.content_grabber {
            Some(grabber) => match grabber.get_metadata() {
                Some(md) => Ok(md.line_count),
                None => Err(NativeError::grabber("Metadata isn't inited yet")),
            },
            None => Err(NativeError::grabber("Grabber isn't inited")),
        }
    }

    /// `GetSearchResultLen`: the number of lines of the search result file
    /// that the last scan found, 0 if there is no search.
    pub fn get_search_result_len(&self) -> (n: usize)
        ensures
            n == self@.search_result_len(),
    {
        match &self.search_grabber {
            Some(grabber) => match grabber.get_metadata() {
                Some(md) => md.line_count,
                None => 0,
            },
            None => 0,
        }
    }

    /// `GetSearchMap`: a copy of the search map.
    pub fn get_search_map(&self) -> (map: SearchMap)
        ensures
            map@ == self@.search_map,
    {
        self.search_map.duplicate()
    }

    /// `SetStreamLen`: sets the length of the stream that the search map is
    /// scaled to.
    pub fn set_stream_len(&mut self, len: u64)
        ensures
            final(self)@ == (SessionStateView {
                search_map: SearchMapView { stream_len: len, ..old(self)@.search_map },
                ..old(self)@
            }),
    {
        self.search_map.set_stream_len(len);
    }

    /// `SetMatches`: replaces the matches of the search map and tells what
    /// the map holds now.
    pub fn handle_set_matches(&mut self, entries: Option<Vec<FilterMatch>>) -> (event:
        CallbackEvent)
        ensures
            final(self)@ == old(self)@.set_matches(
                match entries {
                    Some(m) => Some(match_views(m@)),
                    None => None,
                },
            ),
            event@ == CallbackEventView::SearchMapUpdated(
                match entries {
                    Some(m) => Some(map_text(match_views(m@))),
                    None => None,
                },
            ),
    {
        let event = match &entries {
            Some(m) => CallbackEvent::SearchMapUpdated(Some(SearchMap::map_as_str(m.as_slice()))),
            None => CallbackEvent::SearchMapUpdated(None),
        };
        self.search_map.set(entries);
        event
    }

    /// `GetSearchHolder`: hands out the search holder and marks it as in
    /// use. Where the session has made none yet, the holder is a fresh one
    /// over the session file. A channel error where the holder is in use, or
    /// where there is neither a holder nor a session file.
    pub fn handle_get_search_holder(&mut self, uuid: u128) -> (r: Result<
        SearchHolder,
        NativeError,
    >)
        ensures
            match old(self)@.holder_to_take(uuid) {
                Some(h) => r matches Ok(holder) && holder@ == h && final(self)@ == old(
                    self,
                )@.holder_taken(),
                None => {
                    &&& final(self)@ == old(self)@
                    &&& r matches Err(e)
                    &&& e@ == error_of(
                        NativeErrorKind::ChannelError,
                        if old(self)@.search_holder is InUse {
                            "Search holder is in use"@
                        } else {
                            "Cannot create search holder without session file."@
                        },
                    )
                },
            },
    {
        match &self.search_holder {
            SearchHolderState::Available(_) => {
                let mut taken = SearchHolderState::InUse;
                std::mem::swap(&mut self.search_holder, &mut taken);
                match taken {
                    SearchHolderState::Available(holder) => Ok(holder),
                    _ => Err(
                        NativeError::new(
                            NativeErrorKind::Configuration,
                            "Could not replace search holder in state",
                        ),
                    ),
                }
            },
            SearchHolderState::InUse => Err(NativeError::channel("Search holder is in use")),
            SearchHolderState::NotInited => match &self.session_file {
                Some(session_file) => {
                    let no_filters: Vec<crate::filter::SearchFilter> = Vec::new();
                    let holder = SearchHolder::new(session_file.as_str(), no_filters.as_slice(), uuid);
                    proof {
                        assert(crate::filter::filter_views(no_filters@) =~= Seq::empty());
                    }
                    self.search_holder = SearchHolderState::InUse;
                    Ok(holder)
                },
                None => Err(
                    NativeError::channel("Cannot create search holder without session file."),
                ),
            },
        }
    }

    /// `SetSearchHolder`: takes the holder back, or learns that there is
    /// none any more. A channel error where the holder is not in use.
    pub fn handle_set_search_holder(&mut self, holder: Option<SearchHolder>, uuid: u128) -> (r:
        Result<(), NativeError>)
        ensures
            if old(self)@.search_holder is InUse {
                r is Ok && final(self)@ == old(self)@.holder_returned(
                    match holder {
                        Some(h) => Some(h@),
                        None => None,
                    },
                )
            } else {
                &&& final(self)@ == old(self)@
                &&& r matches Err(e)
                &&& e@ == error_of(
                    NativeErrorKind::ChannelError,
                    "Cannot set search holder - it wasn't in use"@,
                )
            },
    {
        match &self.search_holder {
            SearchHolderState::InUse => {
                match holder {
                    Some(h) => {
                        self.search_holder = SearchHolderState::Available(h);
                    },
                    None => {
                        self.search_holder = SearchHolderState::NotInited;
                    },
                }
                Ok(())
            },
            _ => Err(NativeError::channel("Cannot set search holder - it wasn't in use")),
        }
    }

    /// `DropSearch`: forgets the search, unless the holder is in use. The
    /// events tell that the search result and the search map are empty.
    pub fn handle_drop_search(&mut self) -> (r: Option<(CallbackEvent, CallbackEvent)>)
        ensures
            if old(self)@.search_holder is InUse {
                r is None && final(self)@ == old(self)@
            } else {
                &&& final(self)@ == old(self)@.search_dropped()
                &&& r matches Some(events)
                &&& events.0@ == CallbackEventView::SearchUpdated(0)
                &&& events.1@ == CallbackEventView::SearchMapUpdated(None)
            },
    {
        match &self.search_holder {
            SearchHolderState::InUse => None,
            _ => {
                self.search_grabber = None;
                self.search_holder = SearchHolderState::NotInited;
                self.search_map.set(None);
                Some((CallbackEvent::SearchUpdated(0), CallbackEvent::SearchMapUpdated(None)))
            },
        }
    }

    /// `WriteSessionFile`: takes the text as bytes for the session file.
    /// `elapsed_ms` is the time since the last flush. Returns the bytes that
    /// are to be appended to the session file and flushed now: the caller
    /// does so, starts the time anew and goes on with `UpdateSession`. `None`
    /// where the bytes wait for a later flush; the reply to the command is
    /// then `false`.
    pub fn handle_write_session_file(&mut self, msg: &str, elapsed_ms: u128) -> (r: Result<
        Option<Vec<u8>>,
        NativeError,
    >)
        ensures
            if old(self)@.assigned() {
                &&& r matches Ok(flush)
                &&& (final(self)@, flush.deep_view()) == old(self)@.written(
                    vstd::utf8::encode_utf8(msg@),
                    elapsed_ms,
                )
            } else {
                &&& final(self)@ == old(self)@
                &&& r matches Err(e)
                &&& e@ == not_assigned()
            },
    {
        if self.session_writer.is_none() && self.session_file.is_none() {
            return Err(NativeError::grabber("Session file isn't assigned yet"));
        }
        let mut writer = match self.session_writer.take() {
            Some(w) => w,
            None => SessionWriter { pending: Vec::new() },
        };
        crate::text::append_bytes(&mut writer.pending, msg.as_bytes());
        if elapsed_ms > NOTIFY_IN_MS {
            let mut flush: Vec<u8> = Vec::new();
            std::mem::swap(&mut writer.pending, &mut flush);
            self.session_writer = Some(writer);
            proof {
                assert(flush.deep_view() =~= flush@);
            }
            Ok(Some(flush))
        } else {
            self.session_writer = Some(writer);
            self.session_has_updates = true;
            Ok(None)
        }
    }

    /// `FlushSessionFile`: returns the bytes that are to be appended to the
    /// session file and flushed now, if the session has updates: the caller
    /// does so, starts the time anew and goes on with `UpdateSession`.
    pub fn handle_flush_session_file(&mut self) -> (r: Result<Option<Vec<u8>>, NativeError>)
        ensures
            if old(self)@.assigned() {
                &&& r matches Ok(flush)
                &&& (final(self)@, flush.deep_view()) == old(self)@.flushed()
            } else {
                &&& final(self)@ == old(self)@
                &&& r matches Err(e)
                &&& e@ == not_assigned()
            },
    {
        if self.session_writer.is_none() && self.session_file.is_none() {
            return Err(NativeError::grabber("Session file isn't assigned yet"));
        }
        if !self.session_has_updates {
            return Ok(None);
        }
        match self.session_writer.take() {
            Some(w) => {
                let mut writer = w;
                let mut flush: Vec<u8> = Vec::new();
                std::mem::swap(&mut writer.pending, &mut flush);
                self.session_writer = Some(writer);
                self.session_has_updates = false;
                proof {
                    assert(flush.deep_view() =~= flush@);
                }
                Ok(Some(flush))
            },
            None => Ok(None),
        }
    }

    /// `UpdateSession`, after the caller has scanned the session file anew:
    /// `scanned` is the number of lines found, or why the scan failed. Where
    /// the number has changed, the event tells so and the caller goes on
    /// with a run of the search holder, if the session keeps one, and with
    /// [`SessionState::finish_update_session`]. The reply to the command is
    /// whether the number has grown.
    pub fn handle_update_session(&mut self, scanned: Result<usize, GrabError>) -> (r: Result<
        SessionUpdate,
        NativeError,
    >)
        ensures
            match (old(self)@.content_grabber, scanned) {
                (None, _) => {
                    &&& final(self)@ == old(self)@
                    &&& r matches Err(e)
                    &&& e@ == no_grabber()
                },
                (Some(_), Err(why)) => {
                    &&& final(self)@ == old(self)@
                    &&& r matches Err(e)
                    &&& e@ == error_of(NativeErrorKind::Grabber, grab_error_text(why))
                },
                (Some(_), Ok(line_count)) => {
                    &&& r matches Ok(update)
                    &&& (final(self)@, update.event.deep_view(), update.grown) == old(
                        self,
                    )@.stream_scanned(line_count)
                },
            },
    {
        let mut grabber = match self.content_grabber.take() {
            Some(g) => g,
            None => {
                return Err(NativeError::grabber("Grabber isn't inited"));
            },
        };
        let current = match scanned {
            Ok(n) => n,
            Err(why) => {
                self.content_grabber = Some(grabber);
                return Err(why.to_native());
            },
        };
        let prev = match grabber.log_entry_count() {
            Some(n) => n,
            None => 0,
        };
        grabber.update(current);
        self.content_grabber = Some(grabber);
        let event = if prev != current {
            Some(CallbackEvent::StreamUpdated(current as u64))
        } else {
            None
        };
        Ok(SessionUpdate { event, grown: current > prev })
    }

    /// The search result file that is to be looked for after a run of the
    /// search holder: the one that the run returned, if it succeeded.
    pub fn result_file_to_scan(results: &Option<SearchResults>) -> (path: Option<String>)
        ensures
            match *results {
                Some(Ok((file, _, _))) => path matches Some(p) && p@ == file@,
                _ => path is None,
            },
    {
        match results {
            Some(Ok((file, _, _))) => Some(file.clone()),
            _ => None,
        }
    }

    /// The end of `UpdateSession` on a session whose file has changed.
    /// `grown` is what the first part of the command found, `results` what
    /// the run of the search holder returned, `None` where the session keeps
    /// no holder, and `scanned` what the look for the search result file
    /// found, as for [`SessionState::update_search_result`]; it counts only
    /// where the run succeeded. The matches of the run go into the search
    /// map, and the events tell of the search result and of the new matches,
    /// in this order. A run or a scan that failed is no error of the
    /// command: the failure is handed out to be logged.
    pub fn finish_update_session(
        &mut self,
        grown: bool,
        results: Option<SearchResults>,
        scanned: Option<Result<usize, GrabError>>,
    ) -> (end: UpdateEnd)
        ensures
            ({
                let ended = old(self)@.update_ended(grown, results, scanned);
                &&& final(self)@ == ended.state
                &&& end.events.deep_view() == ended.events
                &&& end.reply == ended.reply
                &&& end.failure.deep_view() == ended.failure
            }),
    {
        let (path, entries) = match results {
            None => {
                return UpdateEnd { events: Vec::new(), reply: grown, failure: None };
            },
            Some(Err(why)) => {
                let mut text = String::from_str("Fail to append search: ");
                let detail = why.message();
                text.append(detail.as_str());
                return UpdateEnd { events: Vec::new(), reply: grown, failure: Some(text) };
            },
            Some(Ok((path, entries, _))) => (path, entries),
        };
        match self.update_search_result(path.as_str(), scanned) {
            Ok(found) => {
                let (updated, map_updated) = self.handle_search_updated(found, entries);
                let mut events: Vec<CallbackEvent> = Vec::new();
                events.push(updated);
                events.push(map_updated);
                proof {
                    assert(events.deep_view() =~= seq![updated@, map_updated@]);
                }
                UpdateEnd { events, reply: grown, failure: None }
            },
            Err(err) => {
                let mut text = String::from_str("Fail to update search results: ");
                match &err.message {
                    Some(detail) => {
                        text.append(detail.as_str());
                    },
                    None => {},
                }
                UpdateEnd { events: Vec::new(), reply: grown, failure: Some(text) }
            },
        }
    }

    /// `WriteSessionFile` or `FlushSessionFile`, after bytes that were handed
    /// out for the session file could not be written: `unwritten` is the part
    /// of them that is not in the file. They wait again, before all that
    /// has come since, and nothing is lost.
    pub fn handle_write_failed(&mut self, unwritten: Vec<u8>)
        ensures
            final(self)@ == old(self)@.write_failed(unwritten@),
    {
        let mut pending = unwritten;
        match self.session_writer.take() {
            Some(writer) => {
                crate::text::append_bytes(&mut pending, writer.pending.as_slice());
            },
            None => {},
        }
        self.session_writer = Some(SessionWriter { pending });
        self.session_has_updates = true;
    }

    /// The end of `UpdateSession` after a run of the search holder: takes
    /// the matches of the run into the search map. `found` is the number of
    /// lines of the search result file. The events tell of that number and
    /// of the new matches.
    pub fn handle_search_updated(&mut self, found: usize, entries: Vec<FilterMatch>) -> (events: (
        CallbackEvent,
        CallbackEvent,
    ))
        ensures
            final(self)@ == old(self)@.matches_added(match_views(entries@)),
            events.0@ == CallbackEventView::SearchUpdated(found as u64),
            events.1@ == CallbackEventView::SearchMapUpdated(
                Some(map_text(match_views(entries@))),
            ),
    {
        let text = SearchMap::map_as_str(entries.as_slice());
        let mut batch = entries;
        self.search_map.append(&mut batch);
        (CallbackEvent::SearchUpdated(found as u64), CallbackEvent::SearchMapUpdated(Some(text)))
    }

    /// After the caller has looked for the search result file and, if it
    /// is there, scanned it: `scanned` is `None` if the file is not there,
    /// else the number of lines found or why the scan failed. Returns the
    /// number of lines of the search result file, 0 if it is not there.
    pub fn update_search_result(
        &mut self,
        search_result_file: &str,
        scanned: Option<Result<usize, GrabError>>,
    ) -> (r: Result<usize, NativeError>)
        ensures
            final(self)@ == old(self)@.search_result_scanned(search_result_file@, scanned),
            search_result_reply_is(r, scanned),
    {
        let outcome = match scanned {
            Some(outcome) => outcome,
            None => {
                return Ok(0);
            },
        };
        let mut grabber = match self.search_grabber.take() {
            Some(g) => g,
            None => Grabber::lazy(search_result_file),
        };
        match outcome {
            Ok(line_count) => {
                grabber.update(line_count);
                self.search_grabber = Some(grabber);
                Ok(line_count)
            },
            Err(why) => {
                self.search_grabber = Some(grabber);
                Err(why.to_native())
            },
        }
    }

    /// `UpdateSearchResult`: as [`SessionState::update_search_result`],
    /// unless the operation is being cancelled: then nothing is done and the
    /// number returned is 0.
    pub fn handle_update_search_result(
        &mut self,
        uuid: u128,
        search_result_file: &str,
        scanned: Option<Result<usize, GrabError>>,
    ) -> (r: Result<usize, NativeError>)
        ensures
            if old(self)@.cancelling_operations.contains(uuid) {
                final(self)@ == old(self)@ && r == Ok::<usize, NativeError>(0)
            } else {
                &&& final(self)@ == old(self)@.search_result_scanned(search_result_file@, scanned)
                &&& search_result_reply_is(r, scanned)
            },
    {
        if self.is_canceling(uuid) {
            Ok(0)
        } else {
            self.update_search_result(search_result_file, scanned)
        }
    }

    /// `Grab`, after the caller has read the session file: the lines of the
    /// range as they stand in the file. `file` is the text of the file, or
    /// why it could not be read.
    pub fn handle_grab(&self, range: &LineRange, file: Result<Vec<u8>, GrabError>) -> (r: Result<
        GrabbedContent,
        NativeError,
    >)
        ensures
            match (self@.content_grabber, file) {
                (None, _) => r matches Err(e) && e@ == no_grabber(),
                (Some(grabber), Ok(content)) if grabber.metadata is Some && range_in_text(
                    *range,
                    content@,
                ) => r matches Ok(grabbed) && element_views(grabbed.grabbed_elements@)
                    == grabbed_lines(grabber.path, content@, *range),
                _ => r matches Err(e) && e@ == error_of(
                    NativeErrorKind::Grabber,
                    "Failed to grab content"@,
                ),
            },
    {
        let grabber = match &self.content_grabber {
            Some(grabber) => grabber,
            None => {
                return Err(NativeError::grabber("Grabber isn't inited"));
            },
        };
        let content = match file {
            Ok(content) => content,
            Err(_) => {
                return Err(NativeError::grabber("Failed to grab content"));
            },
        };
        match grabber.grab_content(content.as_slice(), range) {
            Ok(grabbed) => Ok(grabbed),
            Err(_) => Err(NativeError::grabber("Failed to grab content")),
        }
    }

    /// `GrabSearch`, after the caller has read the search result file: reads
    /// the line numbers that the lines of the range hold and puts them into
    /// runs. `result_file` is the text of the search result file, or why it
    /// could not be read. The caller reads the session file and goes on with
    /// [`SessionState::finish_grab_search`].
    pub fn handle_grab_search(&self, range: &LineRange, result_file: Result<Vec<u8>, GrabError>)
        -> (r: Result<Vec<LineRange>, NativeError>)
        ensures
            match self@.search_grabber {
                None => r matches Err(e) && e@ == error_of(
                    NativeErrorKind::Grabber,
                    "Search grabber isn't inited"@,
                ),
                Some(grabber) => match grabbed_numbers(grabber, *range, result_file) {
                    Err(why) => r matches Err(e) && e@ == error_of(
                        NativeErrorKind::Grabber,
                        "Failed to grab search data. Error: "@ + why,
                    ),
                    Ok(texts) => if !all_parse(texts) {
                        r matches Err(e) && e@ == no_line_number()
                    } else if self@.content_grabber is None {
                        r matches Err(e) && e@ == no_grabber()
                    } else {
                        r matches Ok(ranges) && ranges@ == coalesced(parsed_positions(texts))
                    },
                },
            },
    {
        let grabber = match &self.search_grabber {
            Some(grabber) => grabber,
            None => {
                return Err(NativeError::grabber("Search grabber isn't inited"));
            },
        };
        let line_numbers = match result_file {
            Ok(content) => grabber.grab_content(content.as_slice(), range),
            Err(why) => Err(why),
        };
        let content = match line_numbers {
            Ok(content) => content,
            Err(why) => {
                let mut text = String::from_str("Failed to grab search data. Error: ");
                let detail = why.message();
                text.append(detail.as_str());
                return Err(NativeError::grabber(text.as_str()));
            },
        };
        let positions = match parse_positions(&content) {
            Ok(positions) => positions,
            Err(e) => {
                return Err(e);
            },
        };
        if self.content_grabber.is_none() {
            return Err(NativeError::grabber("Grabber isn't inited"));
        }
        Ok(coalesce(positions.as_slice()))
    }

    /// The end of `GrabSearch`, after the caller has read the session file:
    /// grabs each of the runs from it and returns all their lines in order,
    /// each tagged with its place in the session file and its row in the
    /// search result, which counts on from the first row asked for. `file` is
    /// the text of the session file, or why it could not be read.
    pub fn finish_grab_search(
        &self,
        range: &LineRange,
        ranges: &[LineRange],
        file: Result<Vec<u8>, GrabError>,
    ) -> (r: Result<GrabbedContent, NativeError>)
        ensures
            match (self@.content_grabber, file) {
                (None, _) => r matches Err(e) && e@ == no_grabber(),
                (Some(_), Err(why)) => r matches Err(e) && e@ == error_of(
                    NativeErrorKind::Grabber,
                    grab_error_text(why),
                ),
                (Some(grabber), Ok(content)) => match grabbed_ranges(grabber, content@, ranges@) {
                    Err(why) => r matches Err(e) && e@ == error_of(NativeErrorKind::Grabber, why),
                    Ok(grabbed) => if tags_fit(range.start, ranges@, grabbed) {
                        r matches Ok(tagged_lines) && element_views(tagged_lines.grabbed_elements@)
                            == tagged(range.start, ranges@, grabbed)
                    } else {
                        r matches Err(e) && e@ == out_of_range()
                    },
                },
            },
    {
        let grabber = match &self.content_grabber {
            Some(grabber) => grabber,
            None => {
                return Err(NativeError::grabber("Grabber isn't inited"));
            },
        };
        let content = match file {
            Ok(content) => content,
            Err(why) => {
                return Err(why.to_native());
            },
        };
        let grabbed = match grab_ranges(grabber, content.as_slice(), ranges) {
            Ok(grabbed) => grabbed,
            Err(why) => {
                return Err(why.to_native());
            },
        };
        finish_grab_search(range.start, ranges, grabbed.as_slice())
    }

    /// `CloseSession`: cancels the work that runs for the session and closes
    /// the session.
    pub fn handle_close_session(&mut self, token: &CancellationToken)
        ensures
            final(self)@ == (SessionStateView { status: Status::Closed, ..old(self)@ }),
    {
        token.cancel();
        self.status = Status::Closed;
    }

    /// `SetDebugMode`.
    pub fn set_debug(&mut self, debug: bool)
        ensures
            final(self)@ == (SessionStateView { debug, ..old(self)@ }),
    {
        self.debug = debug;
    }

    /// `NotifyCancelingOperation`: from now on the operation is being
    /// cancelled.
    pub fn canceling_operation(&mut self, uuid: u128)
        ensures
            final(self)@ == (SessionStateView {
                cancelling_operations: old(self)@.cancelling_operations.insert(uuid),
                ..old(self)@
            }),
    {
        broadcast use vstd::std_specs::hash::group_hash_axioms;

        self.cancelling_operations.insert(uuid, true);
        proof {
            assert(self@.cancelling_operations =~= old(self)@.cancelling_operations.insert(uuid));
        }
    }

    /// `NotifyCanceledOperation`: the operation is cancelled for good and is
    /// forgotten.
    pub fn canceled_operation(&mut self, uuid: u128)
        ensures
            final(self)@ == (SessionStateView {
                cancelling_operations: old(self)@.cancelling_operations.remove(uuid),
                ..old(self)@
            }),
    {
        broadcast use vstd::std_specs::hash::group_hash_axioms;

        self.cancelling_operations.remove(&uuid);
        proof {
            assert(self@.cancelling_operations =~= old(self)@.cancelling_operations.remove(uuid));
        }
    }

    /// Whether the operation is being cancelled.
    pub fn is_canceling(&self, uuid: u128) -> (b: bool)
        ensures
            b == self@.cancelling_operations.contains(uuid),
    {
        broadcast use vstd::std_specs::hash::group_hash_axioms;

        self.cancelling_operations.contains_key(&uuid)
    }

    /// `Shutdown`, at the end of the task: the file that is to be removed,
    /// which is the session file if the session has written to it. The
    /// session gives the file up.
    pub fn take_owned_session_file(&mut self) -> (remove: Option<String>)
        ensures
            match (old(self)@.session_writer, old(self)@.session_file) {
                (Some(_), Some(path)) => {
                    &&& remove matches Some(p)
                    &&& p@ == path
                    &&& final(self)@ == (SessionStateView { session_file: None, ..old(self)@ })
                },
                _ => remove is None && final(self)@ == old(self)@,
            },
    {
        if self.session_writer.is_some() {
            self.session_file.take()
        } else {
            None
        }
    }
}

} // verus!
