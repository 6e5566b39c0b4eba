use session_core::filter::{escape, filter_as_regex, SearchFilter};
use session_core::map::FilterMatch;
use session_core::search::{result_lines, SearchError, SearchHolder};
use session_core::stats::FilterStats;
use tokio_util::sync::CancellationToken;

const LOGS: &[&str] = &[
    "[Info](1.3): a",
    "[Warn](1.4): b",
    "[Info](1.5): c",
    "[Err](1.6): d",
    "[Info](1.7): e",
    "[Info](1.8): f",
];

fn as_matches(content: &str) -> Vec<u64> {
    let lines: Vec<&str> = content.lines().collect();
    println!("lines: {:?}", lines);
    lines
        .into_iter()
        .map(|line| line.parse::<u64>().unwrap())
        .collect()
}

// One run of a fresh holder over the content; what it adds to the result file.
fn run(
    holder: &mut SearchHolder,
    content: &str,
) -> Result<(String, Vec<FilterMatch>, FilterStats), SearchError> {
    let start = holder.start_position(content.len() as u64)? as usize;
    let tail = if start <= content.len() {
        &content.as_bytes()[start..]
    } else {
        &content.as_bytes()[content.len()..]
    };
    holder.execute_search(tail, &CancellationToken::new())
}

fn filtered(content: &str, filters: &[SearchFilter]) -> Result<String, String> {
    let mut search_holder = SearchHolder::new("session", filters, 1);
    let (_out_path, indexes, _stats) =
        run(&mut search_holder, content).map_err(|e| format!("Error in search: {}", e.message()))?;
    Ok(result_lines(&indexes))
}

#[test]
fn test_ripgrep_regex_non_regex() {
    let filters = vec![
        SearchFilter::new(r"[Err]")
            .regex(false)
            .ignore_case(true)
            .word(false),
        SearchFilter::new(r"\[Warn\]")
            .regex(true)
            .ignore_case(true)
            .word(false),
    ];

    let result_content = filtered(&LOGS.join("\n"), &filters).unwrap();
    println!("result_content: {:?}", result_content);
    let matches = as_matches(&result_content);
    assert_eq!(2, matches.len());
    assert_eq!(1, matches[0]);
    assert_eq!(3, matches[1]);
}

#[test]
fn test_ripgrep_case_sensitivity() {
    let filters = vec![
        SearchFilter::new(r"[err]")
            .regex(false)
            .ignore_case(true)
            .word(false),
        SearchFilter::new(r"[warn]")
            .regex(false)
            .ignore_case(false)
            .word(false),
    ];

    let result_content = filtered(&LOGS.join("\n"), &filters).unwrap();
    println!("result_content: {:?}", result_content);
    let matches = as_matches(&result_content);
    assert_eq!(1, matches.len());
    assert_eq!(3, matches[0]);
}

#[test]
fn two_filters_give_result_file_and_stats() {
    let filters = vec![
        SearchFilter::new("[Err]").regex(false).ignore_case(true),
        SearchFilter::new("\\[Warn\\]").regex(true).ignore_case(true),
    ];
    let mut content = LOGS.join("\n");
    content.push('\n');
    let mut holder = SearchHolder::new("session", &filters, 7);
    let (path, found, stats) = run(&mut holder, &content).unwrap();
    assert_eq!(path, "session.out");
    assert_eq!(result_lines(&found), "1\n3\n");
    assert_eq!(found.len(), 2);
    assert_eq!(found[0].index, 1);
    assert_eq!(found[0].filters, vec![1u8]);
    assert_eq!(found[1].index, 3);
    assert_eq!(found[1].filters, vec![0u8]);
    assert_eq!(stats.entries(), &vec![(0u8, 1u64), (1u8, 1u64)]);
    assert_eq!(holder.lines_read(), 6);
    assert_eq!(holder.bytes_read(), content.len() as u64 - 1);
    assert_eq!(holder.uuid(), 7);
}

#[test]
fn filter_as_regex_builds_the_pattern() {
    let literal = SearchFilter::new("a.b").regex(false);
    assert_eq!(filter_as_regex(&literal), "a\\.b");
    let regex = SearchFilter::new("a.b").regex(true);
    assert_eq!(filter_as_regex(&regex), "a.b");
    let word = SearchFilter::new("a.b").regex(false).word(true);
    assert_eq!(filter_as_regex(&word), "\\ba\\.b\\b");
    let all = SearchFilter::new("a.b")
        .regex(false)
        .word(true)
        .ignore_case(true);
    assert_eq!(filter_as_regex(&all), "(?i)\\ba\\.b\\b(?-i)");
}

#[test]
fn escape_prefixes_every_special_character() {
    assert_eq!(
        escape("{}[]+$^/!.*|():?,=<>\\"),
        "\\{\\}\\[\\]\\+\\$\\^\\/\\!\\.\\*\\|\\(\\)\\:\\?\\,\\=\\<\\>\\\\"
    );
    assert_eq!(escape("plain text_0"), "plain text_0");
    assert_eq!(escape(""), "");
}

#[test]
fn search_without_filters_is_an_input_error() {
    let mut holder = SearchHolder::new("session", &[], 1);
    match run(&mut holder, "a\nb\n") {
        Err(SearchError::Input(m)) => assert_eq!(m, "Cannot search without filters"),
        other => panic!("unexpected: {:?}", other.map(|r| r.1)),
    }
    assert_eq!(holder.bytes_read(), 0);
    assert_eq!(holder.lines_read(), 0);
}

#[test]
fn search_with_a_broken_pattern_is_a_regex_error() {
    let filters = vec![SearchFilter::new("(unclosed").regex(true)];
    let mut holder = SearchHolder::new("session", &filters, 1);
    assert!(matches!(
        run(&mut holder, "a\n(unclosed\n"),
        Err(SearchError::Regex(_))
    ));
    assert_eq!(holder.lines_read(), 0);
}

#[test]
fn incremental_runs_resume_behind_the_last_line() {
    let filters = vec![
        SearchFilter::new("[Err]").regex(false).ignore_case(true),
        SearchFilter::new("\\[Warn\\]").regex(true).ignore_case(true),
    ];
    let mut file = String::new();
    for line in &LOGS[..3] {
        file.push_str(line);
        file.push('\n');
    }
    let mut holder = SearchHolder::new("session", &filters, 1);
    let (_, first, _) = run(&mut holder, &file).unwrap();
    assert_eq!(result_lines(&first), "1\n");
    assert_eq!(holder.lines_read(), 3);
    assert_eq!(holder.bytes_read(), file.len() as u64 - 1);
    for line in &LOGS[3..] {
        file.push_str(line);
        file.push('\n');
    }
    let (_, second, _) = run(&mut holder, &file).unwrap();
    assert_eq!(result_lines(&second), "3\n");
    assert_eq!(holder.lines_read(), 6);
    let mut both = result_lines(&first);
    both.push_str(&result_lines(&second));
    assert_eq!(both, "1\n3\n");
    // nothing new: nothing found, nothing moves
    let (_, third, stats) = run(&mut holder, &file).unwrap();
    assert!(third.is_empty());
    assert!(stats.entries().is_empty());
    assert_eq!(holder.lines_read(), 6);
    assert_eq!(holder.bytes_read(), file.len() as u64 - 1);
}

#[test]
fn a_line_without_its_end_is_left_for_the_next_run() {
    let filters = vec![SearchFilter::new("x").regex(false)];
    let mut holder = SearchHolder::new("session", &filters, 1);
    let mut file = String::from("_a\nx1\nx2");
    let (_, first, _) = run(&mut holder, &file).unwrap();
    assert_eq!(result_lines(&first), "1\n");
    assert_eq!(holder.lines_read(), 2);
    file.push_str("3\nx4\n");
    let (_, second, stats) = run(&mut holder, &file).unwrap();
    assert_eq!(result_lines(&second), "2\n3\n");
    assert_eq!(stats.entries(), &vec![(0u8, 2u64)]);
    assert_eq!(holder.lines_read(), 4);
}

#[test]
fn a_cancelled_run_finds_nothing_and_stays() {
    let filters = vec![SearchFilter::new("a").regex(false)];
    let mut holder = SearchHolder::new("session", &filters, 1);
    let token = CancellationToken::new();
    token.cancel();
    let (_, found, stats) = holder.execute_search(b"a\na\na\n", &token).unwrap();
    assert!(found.is_empty());
    assert!(stats.entries().is_empty());
    assert_eq!(holder.lines_read(), 0);
    assert_eq!(holder.bytes_read(), 0);
    // the run that is not cancelled finds all of them
    let (_, found, _) = holder
        .execute_search(b"a\na\na\n", &CancellationToken::new())
        .unwrap();
    assert_eq!(result_lines(&found), "0\n1\n2\n");
}

#[test]
fn a_shrunk_file_is_an_io_error() {
    let filters = vec![SearchFilter::new("a").regex(false)];
    let mut holder = SearchHolder::new("session", &filters, 1);
    assert_eq!(holder.start_position(0).unwrap(), 1);
    holder.execute_search(b"a\nbb\n", &CancellationToken::new()).unwrap();
    assert_eq!(holder.bytes_read(), 5);
    assert_eq!(holder.start_position(6).unwrap(), 6);
    assert!(matches!(
        holder.start_position(5),
        Err(SearchError::IoOperation(_))
    ));
}

#[test]
fn a_run_that_was_stopped_is_taken_up_where_it_stopped() {
    let filters = vec![SearchFilter::new("x").regex(false)];
    let tail = b"a\nx1\nb\nx2\nx3\nc\n";
    // the run that is not cancelled
    let mut whole = SearchHolder::new("session", &filters, 1);
    let (_, all, _) = whole
        .execute_search(tail, &CancellationToken::new())
        .unwrap();
    assert_eq!(result_lines(&all), "1\n3\n4\n");
    assert_eq!(whole.lines_read(), 6);
    assert_eq!(whole.bytes_read(), tail.len() as u64);

    // the same run, stopped behind its second match
    let mut stopped = SearchHolder::new("session", &filters, 1);
    let (_, first, stats) = stopped
        .take_batch(tail, &[(2, vec![0]), (4, vec![0])], false)
        .unwrap();
    assert_eq!(result_lines(&first), "1\n3\n");
    assert_eq!(stats.entries(), &vec![(0u8, 2u64)]);
    assert_eq!(stopped.lines_read(), 4);
    assert_eq!(stopped.bytes_read(), 10);
    assert!(stopped.bytes_read() <= whole.bytes_read());
    assert_eq!(&all[..2].iter().map(|m| m.index).collect::<Vec<u64>>(), &[1, 3]);
    // the next run goes on behind line 3
    let (_, rest, _) = stopped
        .execute_search(&tail[10..], &CancellationToken::new())
        .unwrap();
    assert_eq!(result_lines(&rest), "4\n");
    assert_eq!(stopped.lines_read(), whole.lines_read());
    assert_eq!(stopped.bytes_read(), whole.bytes_read());

    // stopped before the first match: nothing moves
    let mut idle = SearchHolder::new("session", &filters, 1);
    let (_, none, _) = idle.take_batch(tail, &[], false).unwrap();
    assert!(none.is_empty());
    assert_eq!(idle.lines_read(), 0);
    assert_eq!(idle.bytes_read(), 0);
}

#[test]
fn a_batch_with_lines_out_of_order_is_refused() {
    let filters = vec![SearchFilter::new("x").regex(false)];
    for numbered in [
        vec![(0u64, vec![0u8])],
        vec![(3, vec![0])],
        vec![(2, vec![0]), (2, vec![0])],
        vec![(2, vec![0]), (1, vec![0])],
    ] {
        let mut holder = SearchHolder::new("session", &filters, 1);
        assert!(matches!(
            holder.take_batch(b"a\nb\nc", &numbered, true),
            Err(SearchError::IoOperation(_))
        ));
        assert_eq!(holder.lines_read(), 0);
        assert_eq!(holder.bytes_read(), 0);
    }
}

#[test]
fn line_indices_stay_below_the_lines_searched_and_cursors_never_go_back() {
    let filters = vec![SearchFilter::new("[a-z]")];
    let mut holder = SearchHolder::new("session", &filters, 1);
    let mut file = String::from("_");
    let mut seen: Vec<u64> = Vec::new();
    for piece in ["a\nb", "c\n\n", "", "d", "\ne\nf\n"] {
        file.push_str(piece);
        let before = (holder.bytes_read(), holder.lines_read());
        let (_, found, _) = run(&mut holder, &file).unwrap();
        assert!(holder.bytes_read() >= before.0);
        assert!(holder.lines_read() >= before.1);
        let lines_in_file = file.bytes().filter(|b| *b == b'\n').count() as u64;
        assert!(holder.lines_read() <= lines_in_file);
        for m in found.iter() {
            assert!(before.1 <= m.index && m.index < holder.lines_read());
            assert!(seen.last().map_or(true, |last| *last < m.index));
            seen.push(m.index);
        }
    }
    assert_eq!(seen, vec![0, 1, 3, 4, 5]);
}
