use session_core::api::ApiKind;
use session_core::events::{CallbackEvent, NativeErrorKind, Severity};
use session_core::filter::SearchFilter;
use session_core::grabber::{GrabError, LineRange};
use session_core::map::FilterMatch;
use session_core::search::{SearchError, SearchHolder};
use session_core::stats::FilterStats;
use session_core::state::{
    SearchHolderState, SessionFile, SessionState, Status, NOTIFY_IN_MS,
};
use tokio_util::sync::CancellationToken;

fn with_file(path: &str) -> SessionState {
    let mut state = SessionState::new();
    state
        .handle_set_session_file(SessionFile::Existed(path.to_string()), None)
        .unwrap();
    state
}

#[test]
fn a_new_session_has_nothing() {
    let state = SessionState::new();
    assert!(state.session_file.is_none());
    assert!(state.session_writer.is_none());
    assert!(!state.session_has_updates);
    assert!(state.content_grabber.is_none());
    assert!(state.search_grabber.is_none());
    assert!(matches!(state.search_holder, SearchHolderState::NotInited));
    assert!(state.cancelling_operations.is_empty());
    assert_eq!(state.status, Status::Open);
    assert!(!state.debug);
    assert_eq!(state.get_search_result_len(), 0);
    let err = state.get_session_file().unwrap_err();
    assert_eq!(err.kind, NativeErrorKind::Grabber);
    assert_eq!(err.severity, Severity::Error);
    assert_eq!(err.message.as_deref(), Some("Session file isn't assigned yet"));
    let err = state.handle_get_stream_len().unwrap_err();
    assert_eq!(err.message.as_deref(), Some("Grabber isn't inited"));
}

#[test]
fn set_session_file_is_taken_once() {
    let mut state = with_file("/tmp/a.session");
    assert_eq!(state.get_session_file().unwrap(), "/tmp/a.session");
    let err = state.handle_get_stream_len().unwrap_err();
    assert_eq!(err.message.as_deref(), Some("Metadata isn't inited yet"));
    // a second file changes nothing
    state
        .handle_set_session_file(SessionFile::Existed(String::from("/tmp/b.session")), None)
        .unwrap();
    assert_eq!(state.get_session_file().unwrap(), "/tmp/a.session");
    // a file that was to be created and was
    let mut fresh = SessionState::new();
    fresh
        .handle_set_session_file(SessionFile::ToBeCreated, Some(String::from("/s/1.session")))
        .unwrap();
    assert_eq!(fresh.get_session_file().unwrap(), "/s/1.session");
    // and one that was not
    let mut failed = SessionState::new();
    let err = failed
        .handle_set_session_file(SessionFile::ToBeCreated, None)
        .unwrap_err();
    assert_eq!(err.kind, NativeErrorKind::Io);
    assert!(failed.session_file.is_none());
}

#[test]
fn writes_wait_until_the_debounce_time_is_over() {
    let mut state = SessionState::new();
    let err = state.handle_write_session_file("x", 0).unwrap_err();
    assert_eq!(err.message.as_deref(), Some("Session file isn't assigned yet"));
    let err = state.handle_flush_session_file().unwrap_err();
    assert_eq!(err.kind, NativeErrorKind::Grabber);

    let mut state = with_file("/tmp/a.session");
    assert_eq!(NOTIFY_IN_MS, 250);
    assert_eq!(state.handle_write_session_file("one\n", 10).unwrap(), None);
    assert!(state.session_has_updates);
    assert_eq!(state.handle_write_session_file("two\n", 250).unwrap(), None);
    // more than 250 ms: all that waits is handed out
    assert_eq!(
        state.handle_write_session_file("three\n", 251).unwrap(),
        Some(b"one\ntwo\nthree\n".to_vec())
    );
    assert!(state.session_writer.as_ref().unwrap().pending.is_empty());
    assert_eq!(state.handle_write_session_file("four\n", 0).unwrap(), None);
    assert_eq!(
        state.handle_flush_session_file().unwrap(),
        Some(b"four\n".to_vec())
    );
    assert!(!state.session_has_updates);
    assert_eq!(state.handle_flush_session_file().unwrap(), None);
}

#[test]
fn written_texts_reach_the_file_in_order() {
    let texts = ["a\n", "", "bc\n", "d", "e\nf\n", "\u{e9}\n"];
    let elapsed = [0u128, 300, 10, 251, 250, 0];
    let mut state = with_file("/tmp/a.session");
    let mut file: Vec<u8> = Vec::new();
    for (text, ms) in texts.iter().zip(elapsed.iter()) {
        if let Some(bytes) = state.handle_write_session_file(text, *ms).unwrap() {
            file.extend_from_slice(&bytes);
        }
    }
    if let Some(bytes) = state.handle_flush_session_file().unwrap() {
        file.extend_from_slice(&bytes);
    }
    assert_eq!(file, texts.concat().into_bytes());
}

#[test]
fn update_session_tells_of_new_lines_once() {
    let mut state = SessionState::new();
    let err = state.handle_update_session(Ok(3)).unwrap_err();
    assert_eq!(err.message.as_deref(), Some("Grabber isn't inited"));

    let mut state = with_file("/tmp/a.session");
    // empty session file: nothing to tell
    let update = state.handle_update_session(Ok(0)).unwrap();
    assert!(update.event.is_none());
    assert!(!update.grown);
    assert_eq!(state.handle_get_stream_len().unwrap(), 0);
    let update = state.handle_update_session(Ok(6)).unwrap();
    match update.event {
        Some(CallbackEvent::StreamUpdated(n)) => assert_eq!(n, 6),
        other => panic!("unexpected: {:?}", other),
    }
    assert!(update.grown);
    assert_eq!(state.handle_get_stream_len().unwrap(), 6);
    // again, with no line added
    let update = state.handle_update_session(Ok(6)).unwrap();
    assert!(update.event.is_none());
    assert!(!update.grown);
    assert_eq!(state.handle_get_stream_len().unwrap(), 6);
    // a file that has become shorter has changed and has not grown
    let update = state.handle_update_session(Ok(4)).unwrap();
    assert!(matches!(update.event, Some(CallbackEvent::StreamUpdated(4))));
    assert!(!update.grown);
    assert_eq!(state.handle_get_stream_len().unwrap(), 4);
    // a scan that failed leaves the session as it is
    let err = state
        .handle_update_session(Err(GrabError::IoOperation(String::from("gone"))))
        .unwrap_err();
    assert_eq!(err.kind, NativeErrorKind::Grabber);
    assert_eq!(err.message.as_deref(), Some("IO error while grabbing: (gone)"));
    assert_eq!(state.handle_get_stream_len().unwrap(), 4);
}

#[test]
fn update_session_ends_with_the_events_of_the_search() {
    let mut state = with_file("/tmp/a.session");
    state.handle_set_matches(Some(vec![FilterMatch::new(0, vec![0])]));
    // no holder: nothing follows
    let end = state.finish_update_session(true, None, Some(Ok(9)));
    assert!(end.events.is_empty());
    assert!(end.reply);
    assert!(end.failure.is_none());
    assert!(state.search_grabber.is_none());
    // a search that failed is logged, and the reply stays
    let end = state.finish_update_session(
        true,
        Some(Err(SearchError::Regex(String::from("bad")))),
        Some(Ok(9)),
    );
    assert!(end.events.is_empty());
    assert!(end.reply);
    assert_eq!(
        end.failure.as_deref(),
        Some("Fail to append search: Regex-Error: (bad)")
    );
    assert!(state.search_grabber.is_none());
    assert_eq!(state.get_search_map().entries.len(), 1);
    // a search that succeeded, and a result file that could be scanned
    let results = Ok((
        String::from("/tmp/a.session.out"),
        vec![FilterMatch::new(3, vec![0, 1])],
        FilterStats::new(vec![(0, 1), (1, 1)]),
    ));
    assert_eq!(
        SessionState::result_file_to_scan(&Some(Err(SearchError::Input(String::new())))),
        None
    );
    assert_eq!(SessionState::result_file_to_scan(&None), None);
    let results = Some(results);
    assert_eq!(
        SessionState::result_file_to_scan(&results),
        Some(String::from("/tmp/a.session.out"))
    );
    let end = state.finish_update_session(false, results, Some(Ok(2)));
    assert!(!end.reply);
    assert!(end.failure.is_none());
    assert_eq!(end.events.len(), 2);
    assert!(matches!(end.events[0], CallbackEvent::SearchUpdated(2)));
    match &end.events[1] {
        CallbackEvent::SearchMapUpdated(Some(text)) => {
            assert_eq!(text, "[{\"index\":3,\"filters\":[0,1]}]")
        }
        other => panic!("unexpected: {:?}", other),
    }
    assert_eq!(state.get_search_result_len(), 2);
    assert_eq!(state.get_search_map().entries.len(), 2);
    // a result file that is not there counts as empty
    let results = Some(Ok((
        String::from("/tmp/a.session.out"),
        vec![FilterMatch::new(5, vec![1])],
        FilterStats::new(vec![(1, 1)]),
    )));
    let end = state.finish_update_session(true, results, None);
    assert!(matches!(end.events[0], CallbackEvent::SearchUpdated(0)));
    assert_eq!(state.get_search_map().entries.len(), 3);
    // a result file that could not be scanned: logged, no events, no matches taken
    let results = Some(Ok((
        String::from("/tmp/a.session.out"),
        vec![FilterMatch::new(7, vec![1])],
        FilterStats::new(vec![(1, 1)]),
    )));
    let end = state.finish_update_session(true, results, Some(Err(GrabError::Interrupted)));
    assert!(end.events.is_empty());
    assert!(end.reply);
    assert_eq!(
        end.failure.as_deref(),
        Some("Fail to update search results: Grabbing interrupted")
    );
    assert_eq!(state.get_search_map().entries.len(), 3);
}

#[test]
fn bytes_that_could_not_be_written_wait_again() {
    let mut state = with_file("/tmp/a.session");
    let bytes = state
        .handle_write_session_file("one two", 300)
        .unwrap()
        .unwrap();
    assert_eq!(bytes, b"one two".to_vec());
    state.handle_write_session_file(" three", 0).unwrap();
    // the first three bytes are in the file, the rest is not
    state.handle_write_failed(bytes[3..].to_vec());
    assert!(state.session_has_updates);
    assert_eq!(
        state.handle_flush_session_file().unwrap(),
        Some(b" two three".to_vec())
    );
    // before the first write, too
    let mut state = with_file("/tmp/a.session");
    state.handle_write_failed(b"x".to_vec());
    assert_eq!(state.handle_flush_session_file().unwrap(), Some(b"x".to_vec()));
}

#[test]
fn set_matches_then_get_search_map() {
    let mut state = SessionState::new();
    state.set_stream_len(40);
    let matches = vec![
        FilterMatch::new(1, vec![1]),
        FilterMatch::new(3, vec![0, 1]),
        FilterMatch::new(7, vec![]),
    ];
    match state.handle_set_matches(Some(matches)) {
        CallbackEvent::SearchMapUpdated(Some(text)) => assert_eq!(
            text,
            "[{\"index\":1,\"filters\":[1]},{\"index\":3,\"filters\":[0,1]},{\"index\":7,\"filters\":[]}]"
        ),
        other => panic!("unexpected: {:?}", other),
    }
    let map = state.get_search_map();
    assert_eq!(map.get_stream_len(), 40);
    assert_eq!(map.entries.len(), 3);
    assert_eq!(map.entries[0].index, 1);
    assert_eq!(map.entries[0].filters, vec![1u8]);
    assert_eq!(map.entries[1].index, 3);
    assert_eq!(map.entries[1].filters, vec![0u8, 1]);
    assert_eq!(map.entries[2].index, 7);
    assert!(map.entries[2].filters.is_empty());
    assert!(matches!(
        state.handle_set_matches(None),
        CallbackEvent::SearchMapUpdated(None)
    ));
    assert!(state.get_search_map().entries.is_empty());
}

#[test]
fn search_updated_appends_to_the_map() {
    let mut state = SessionState::new();
    state.handle_set_matches(Some(vec![FilterMatch::new(1, vec![0])]));
    let (first, second) = state.handle_search_updated(2, vec![FilterMatch::new(4, vec![0])]);
    assert!(matches!(first, CallbackEvent::SearchUpdated(2)));
    match second {
        CallbackEvent::SearchMapUpdated(Some(text)) => {
            assert_eq!(text, "[{\"index\":4,\"filters\":[0]}]")
        }
        other => panic!("unexpected: {:?}", other),
    }
    let map = state.get_search_map();
    assert_eq!(map.entries.len(), 2);
    assert_eq!(map.entries[0].index, 1);
    assert_eq!(map.entries[1].index, 4);
}

#[test]
fn the_holder_is_handed_out_to_one_at_a_time() {
    let mut state = SessionState::new();
    let err = state.handle_get_search_holder(1).unwrap_err();
    assert_eq!(err.kind, NativeErrorKind::ChannelError);
    assert_eq!(
        err.message.as_deref(),
        Some("Cannot create search holder without session file.")
    );
    let err = state.handle_set_search_holder(None, 1).unwrap_err();
    assert_eq!(
        err.message.as_deref(),
        Some("Cannot set search holder - it wasn't in use")
    );

    let mut state = with_file("/tmp/a.session");
    let mut holder = state.handle_get_search_holder(1).unwrap();
    assert_eq!(holder.file_path, "/tmp/a.session");
    assert_eq!(holder.out_file_path, "/tmp/a.session.out");
    assert_eq!(holder.uuid(), 1);
    assert!(matches!(state.search_holder, SearchHolderState::InUse));
    // a second taker is turned away
    let err = state.handle_get_search_holder(2).unwrap_err();
    assert_eq!(err.kind, NativeErrorKind::ChannelError);
    assert_eq!(err.message.as_deref(), Some("Search holder is in use"));
    // so is DropSearch
    assert!(state.handle_drop_search().is_none());
    assert!(matches!(state.search_holder, SearchHolderState::InUse));

    holder.set_filters(&[SearchFilter::new("a")]);
    holder
        .execute_search(b"_\na\nb\n", &CancellationToken::new())
        .unwrap();
    state.handle_set_search_holder(Some(holder), 1).unwrap();
    // the holder that comes back is the one that is handed out next
    let again = state.handle_get_search_holder(3).unwrap();
    assert_eq!(again.uuid(), 1);
    assert_eq!(again.lines_read(), 3);
    assert_eq!(again.bytes_read(), 6);
    state.handle_set_search_holder(None, 3).unwrap();
    assert!(matches!(state.search_holder, SearchHolderState::NotInited));
}

#[test]
fn the_session_runs_the_holder_that_it_keeps() {
    let mut state = with_file("/tmp/a.session");
    let token = CancellationToken::new();
    assert!(state.search_holder.start_position(10).is_none());
    assert!(state.search_holder.execute_search(b"a\n", &token).is_none());
    let mut holder = state.handle_get_search_holder(1).unwrap();
    assert!(state.search_holder.execute_search(b"a\n", &token).is_none());
    holder.set_filters(&[SearchFilter::new("b").regex(false)]);
    state.handle_set_search_holder(Some(holder), 1).unwrap();
    assert_eq!(state.search_holder.start_position(10).unwrap().unwrap(), 1);
    let (path, found, _) = state
        .search_holder
        .execute_search(b"a\nb\n", &token)
        .unwrap()
        .unwrap();
    assert_eq!(path, "/tmp/a.session.out");
    assert_eq!(found.len(), 1);
    assert_eq!(found[0].index, 1);
}

#[test]
fn drop_search_forgets_the_search() {
    let mut state = with_file("/tmp/a.session");
    let holder = SearchHolder::new("/tmp/a.session", &[SearchFilter::new("a")], 9);
    state.handle_get_search_holder(9).unwrap();
    state.handle_set_search_holder(Some(holder), 9).unwrap();
    state
        .update_search_result("/tmp/a.session.out", Some(Ok(5)))
        .unwrap();
    state.handle_set_matches(Some(vec![FilterMatch::new(2, vec![0])]));
    assert_eq!(state.get_search_result_len(), 5);
    let (first, second) = state.handle_drop_search().unwrap();
    assert!(matches!(first, CallbackEvent::SearchUpdated(0)));
    assert!(matches!(second, CallbackEvent::SearchMapUpdated(None)));
    assert!(matches!(state.search_holder, SearchHolderState::NotInited));
    assert!(state.search_grabber.is_none());
    assert_eq!(state.get_search_result_len(), 0);
    assert!(state.get_search_map().entries.is_empty());
    // the session file is still there
    assert_eq!(state.get_session_file().unwrap(), "/tmp/a.session");
}

#[test]
fn a_cancelling_operation_updates_no_search_result() {
    let mut state = with_file("/tmp/a.session");
    let u = 0x1234_5678_9abc_def0_1234_5678_9abc_def0u128;
    state.canceling_operation(u);
    assert!(state.is_canceling(u));
    assert_eq!(
        state
            .handle_update_search_result(u, "/tmp/a.session.out", Some(Ok(4)))
            .unwrap(),
        0
    );
    assert!(state.search_grabber.is_none());
    // another operation is served
    assert_eq!(
        state
            .handle_update_search_result(u + 1, "/tmp/a.session.out", Some(Ok(4)))
            .unwrap(),
        4
    );
    state.canceled_operation(u);
    assert!(!state.is_canceling(u));
    assert_eq!(
        state
            .handle_update_search_result(u, "/tmp/a.session.out", Some(Ok(6)))
            .unwrap(),
        6
    );
    assert_eq!(state.get_search_result_len(), 6);
}

#[test]
fn update_search_result_without_file_or_scan() {
    let mut state = SessionState::new();
    assert_eq!(state.update_search_result("/tmp/x.out", None).unwrap(), 0);
    assert!(state.search_grabber.is_none());
    let err = state
        .update_search_result("/tmp/x.out", Some(Err(GrabError::NotInitialize)))
        .unwrap_err();
    assert_eq!(err.kind, NativeErrorKind::Grabber);
    assert_eq!(state.search_grabber.as_ref().unwrap().path, "/tmp/x.out");
    assert_eq!(state.get_search_result_len(), 0);
    assert_eq!(
        state.update_search_result("/tmp/y.out", Some(Ok(2))).unwrap(),
        2
    );
    // the grabber that is there stays on its file
    assert_eq!(state.search_grabber.as_ref().unwrap().path, "/tmp/x.out");
}

#[test]
fn grab_needs_a_grabber_that_has_scanned() {
    let text = b"zero\none\ntwo\n".to_vec();
    let state = SessionState::new();
    let err = state
        .handle_grab(&LineRange::single_line(0), Ok(text.clone()))
        .unwrap_err();
    assert_eq!(err.message.as_deref(), Some("Grabber isn't inited"));
    let mut state = with_file("/tmp/a.session");
    // not scanned yet
    let err = state
        .handle_grab(&LineRange::single_line(0), Ok(text.clone()))
        .unwrap_err();
    assert_eq!(err.message.as_deref(), Some("Failed to grab content"));
    state.handle_update_session(Ok(3)).unwrap();
    let err = state
        .handle_grab(&LineRange::single_line(0), Err(GrabError::Interrupted))
        .unwrap_err();
    assert_eq!(err.message.as_deref(), Some("Failed to grab content"));
    let err = state
        .handle_grab(&LineRange::from_inclusive(2, 3), Ok(text.clone()))
        .unwrap_err();
    assert_eq!(err.kind, NativeErrorKind::Grabber);
    let grabbed = state
        .handle_grab(&LineRange::from_inclusive(1, 2), Ok(text))
        .unwrap();
    assert_eq!(grabbed.grabbed_elements.len(), 2);
    assert_eq!(grabbed.grabbed_elements[0].content, "one");
    assert_eq!(grabbed.grabbed_elements[1].content, "two");
    assert_eq!(grabbed.grabbed_elements[1].source_id, "/tmp/a.session");
    assert_eq!(grabbed.grabbed_elements[1].row, None);
    assert_eq!(grabbed.grabbed_elements[1].pos, None);
}

#[test]
fn grab_search_puts_line_numbers_into_runs() {
    let result_file = b"3\n4\n5\n9\n10\n12\n".to_vec();
    let all = LineRange::from_inclusive(0, 5);
    let mut state = with_file("/tmp/a.session");
    let err = state
        .handle_grab_search(&all, Ok(result_file.clone()))
        .unwrap_err();
    assert_eq!(err.message.as_deref(), Some("Search grabber isn't inited"));
    state
        .update_search_result("/tmp/a.session.out", Some(Ok(6)))
        .unwrap();
    let ranges = state
        .handle_grab_search(&all, Ok(result_file.clone()))
        .unwrap();
    assert_eq!(
        ranges,
        vec![
            LineRange::from_inclusive(3, 5),
            LineRange::from_inclusive(9, 10),
            LineRange::single_line(12),
        ]
    );
    assert_eq!(
        state
            .handle_grab_search(&LineRange::from_inclusive(2, 4), Ok(result_file.clone()))
            .unwrap(),
        vec![LineRange::single_line(5), LineRange::from_inclusive(9, 10)]
    );
    let err = state
        .handle_grab_search(&LineRange::single_line(1), Ok(b"3\nfour\n".to_vec()))
        .unwrap_err();
    assert_eq!(err.kind, NativeErrorKind::OperationSearch);
    let err = state
        .handle_grab_search(&LineRange::from_inclusive(0, 9), Ok(result_file.clone()))
        .unwrap_err();
    assert_eq!(err.kind, NativeErrorKind::Grabber);
    assert_eq!(
        err.message.as_deref(),
        Some("Failed to grab search data. Error: Invalid range: (0..=9)")
    );
    let err = state
        .handle_grab_search(&all, Err(GrabError::IoOperation(String::from("gone"))))
        .unwrap_err();
    assert_eq!(
        err.message.as_deref(),
        Some("Failed to grab search data. Error: IO error while grabbing: (gone)")
    );
    // without a content grabber the runs cannot be grabbed
    let mut state = SessionState::new();
    state.update_search_result("/tmp/x.out", Some(Ok(1))).unwrap();
    let err = state
        .handle_grab_search(&LineRange::single_line(0), Ok(b"1\n".to_vec()))
        .unwrap_err();
    assert_eq!(err.message.as_deref(), Some("Grabber isn't inited"));
}

#[test]
fn grab_search_returns_the_lines_that_the_result_names() {
    let session: Vec<u8> = (0..14)
        .map(|i| format!("line {}\n", i))
        .collect::<String>()
        .into_bytes();
    let result_file = b"3\n4\n5\n9\n10\n12\n".to_vec();
    let mut state = with_file("/tmp/a.session");
    state.handle_update_session(Ok(14)).unwrap();
    state
        .update_search_result("/tmp/a.session.out", Some(Ok(6)))
        .unwrap();
    let range = LineRange::from_inclusive(0, 5);
    let ranges = state.handle_grab_search(&range, Ok(result_file)).unwrap();
    let content = state
        .finish_grab_search(&range, &ranges, Ok(session.clone()))
        .unwrap();
    let got: Vec<(usize, usize, &str)> = content
        .grabbed_elements
        .iter()
        .map(|e| (e.row.unwrap(), e.pos.unwrap(), e.content.as_str()))
        .collect();
    assert_eq!(
        got,
        vec![
            (0, 3, "line 3"),
            (1, 4, "line 4"),
            (2, 5, "line 5"),
            (3, 9, "line 9"),
            (4, 10, "line 10"),
            (5, 12, "line 12"),
        ]
    );
    // a run that the session file does not hold
    let err = state
        .finish_grab_search(&range, &[LineRange::from_inclusive(13, 14)], Ok(session))
        .unwrap_err();
    assert_eq!(err.kind, NativeErrorKind::Grabber);
    assert_eq!(err.message.as_deref(), Some("Invalid range: (13..=14)"));
    let err = state
        .finish_grab_search(&range, &ranges, Err(GrabError::Interrupted))
        .unwrap_err();
    assert_eq!(err.message.as_deref(), Some("Grabbing interrupted"));
    let err = SessionState::new()
        .finish_grab_search(&range, &ranges, Ok(Vec::new()))
        .unwrap_err();
    assert_eq!(err.message.as_deref(), Some("Grabber isn't inited"));
}

#[test]
fn close_and_shutdown_cancel_the_token() {
    let mut state = with_file("/tmp/a.session");
    let token = CancellationToken::new();
    state.set_debug(true);
    assert!(state.debug);
    state.handle_close_session(&token);
    assert!(token.is_cancelled());
    assert_eq!(state.status, Status::Closed);

    // a session that has not written keeps its file
    assert_eq!(state.take_owned_session_file(), None);
    assert_eq!(state.get_session_file().unwrap(), "/tmp/a.session");
    // one that has written gives it up
    state.handle_write_session_file("x", 0).unwrap();
    assert_eq!(
        state.take_owned_session_file(),
        Some(String::from("/tmp/a.session"))
    );
    assert!(state.session_file.is_none());
}

#[test]
fn commands_have_their_names() {
    assert_eq!(ApiKind::SetSessionFile.name(), "SetSessionFile");
    assert_eq!(ApiKind::GetSessionFile.name(), "GetSessionFile");
    assert_eq!(ApiKind::WriteSessionFile.name(), "WriteSessionFile");
    assert_eq!(ApiKind::FlushSessionFile.name(), "FlushSessionFile");
    assert_eq!(ApiKind::UpdateSession.name(), "UpdateSession");
    assert_eq!(ApiKind::FileRead.name(), "FileRead");
    assert_eq!(ApiKind::Grab.name(), "Grab");
    assert_eq!(ApiKind::SetStreamLen.name(), "SetStreamLen");
    assert_eq!(ApiKind::GetStreamLen.name(), "GetStreamLen");
    assert_eq!(ApiKind::GetSearchResultLen.name(), "GetSearchResultLen");
    assert_eq!(ApiKind::UpdateSearchResult.name(), "UpdateSearchResult");
    assert_eq!(ApiKind::GetSearchHolder.name(), "GetSearchHolder");
    assert_eq!(ApiKind::SetSearchHolder.name(), "SetSearchHolder");
    assert_eq!(ApiKind::DropSearch.name(), "DropSearch");
    assert_eq!(ApiKind::GrabSearch.name(), "GrabSearch");
    assert_eq!(ApiKind::GetSearchMap.name(), "GetSearchMap");
    assert_eq!(ApiKind::SetMatches.name(), "SetMatches");
    assert_eq!(ApiKind::CloseSession.name(), "CloseSession");
    assert_eq!(ApiKind::SetDebugMode.name(), "SetDebugMode");
    assert_eq!(
        ApiKind::NotifyCancelingOperation.name(),
        "NotifyCancelingOperation"
    );
    assert_eq!(
        ApiKind::NotifyCanceledOperation.name(),
        "NotifyCanceledOperation"
    );
    assert_eq!(ApiKind::Shutdown.name(), "Shutdown");
}
