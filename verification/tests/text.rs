use session_core::lines::{count_lines, end_of_line, LineCounter};
use session_core::map::{FilterMatch, SearchMap};
use session_core::extract::{ExtractedMatchValue, MatchesExtractor};
use session_core::search::{
    classify_line, compile_filter, compile_filters, result_lines, SearchError, SearchHolder,
};
use session_core::stats::FilterStats;
use session_core::filter::{combined_regex, filter_as_regex, SearchFilter};
use session_core::grabber::GrabError;
use session_core::text::{parse_u64, push_decimal, u64_to_string};

#[test]
fn numbers_as_text_and_back() {
    for n in [0u64, 1, 9, 10, 11, 99, 100, 12345, 1 << 32, u64::MAX - 1, u64::MAX] {
        let text = u64_to_string(n);
        assert_eq!(text, n.to_string());
        assert_eq!(parse_u64(&text), Some(n));
    }
    let mut out = String::from("n=");
    push_decimal(&mut out, 1041);
    assert_eq!(out, "n=1041");
    assert_eq!(parse_u64("+12"), Some(12));
    assert_eq!(parse_u64("000"), Some(0));
    assert_eq!(parse_u64("18446744073709551615"), Some(u64::MAX));
    assert_eq!(parse_u64("18446744073709551616"), None);
    assert_eq!(parse_u64("99999999999999999999999"), None);
    for bad in ["", "+", "++1", "1+", "-0", "12a", "a12", " 1", "1\n", "١"] {
        assert_eq!(parse_u64(bad), None, "{:?}", bad);
        assert!(bad.parse::<u64>().is_err());
    }
}

#[test]
fn lines_are_counted_up_to_the_last_line_end() {
    assert_eq!(count_lines(b""), (0, 0));
    assert_eq!(count_lines(b"abc"), (0, 0));
    assert_eq!(count_lines(b"\n"), (1, 1));
    assert_eq!(count_lines(b"ab\ncd\nef"), (6, 2));
    assert_eq!(count_lines(b"ab\n\n\n"), (5, 3));
    assert_eq!(end_of_line(b"ab\ncd\nef", 0), 0);
    assert_eq!(end_of_line(b"ab\ncd\nef", 1), 3);
    assert_eq!(end_of_line(b"ab\ncd\nef", 2), 6);
    assert_eq!(end_of_line(b"ab\ncd\nef", 3), 8);
    assert_eq!(end_of_line(b"", 1), 0);
}

#[test]
fn lines_are_counted_piece_by_piece() {
    let mut counter = LineCounter::new();
    assert_eq!(counter.total(), 0);
    counter.feed(b"");
    assert_eq!(counter.total(), 0);
    counter.feed(b"ab");
    assert_eq!(counter.total(), 1);
    counter.feed(b"c\nd");
    assert_eq!(counter.total(), 2);
    counter.feed(b"\n");
    assert_eq!(counter.total(), 2);
    counter.feed(b"");
    assert_eq!(counter.total(), 2);
    counter.feed(b"\n\nxyz");
    assert_eq!(counter.total(), 5);
}

#[test]
fn the_map_as_text() {
    assert_eq!(SearchMap::map_as_str(&[]), "[]");
    assert_eq!(
        SearchMap::map_as_str(&[FilterMatch::new(0, vec![])]),
        "[{\"index\":0,\"filters\":[]}]"
    );
    assert_eq!(
        SearchMap::map_as_str(&[
            FilterMatch::new(10, vec![0, 2, 255]),
            FilterMatch::new(u64::MAX, vec![7]),
        ]),
        "[{\"index\":10,\"filters\":[0,2,255]},{\"index\":18446744073709551615,\"filters\":[7]}]"
    );
    let mut map = SearchMap::new();
    assert_eq!(map.get_stream_len(), 0);
    map.set_stream_len(9);
    let mut batch = vec![FilterMatch::new(1, vec![0])];
    map.append(&mut batch);
    assert!(batch.is_empty());
    let mut batch = vec![FilterMatch::new(2, vec![1]), FilterMatch::new(5, vec![0, 1])];
    map.append(&mut batch);
    assert_eq!(map.entries.len(), 3);
    assert_eq!(map.entries[2].filters, vec![0u8, 1]);
    let copy = map.duplicate();
    assert_eq!(copy.entries.len(), 3);
    assert_eq!(copy.entries[1].duplicate().index, 2);
    assert_eq!(copy.get_stream_len(), 9);
    map.set(None);
    assert!(map.entries.is_empty());
    assert_eq!(map.get_stream_len(), 9);
    assert_eq!(copy.entries.len(), 3);
}

#[test]
fn the_result_file_holds_one_index_on_each_line() {
    assert_eq!(result_lines(&[]), "");
    assert_eq!(
        result_lines(&[
            FilterMatch::new(0, vec![0]),
            FilterMatch::new(12, vec![]),
            FilterMatch::new(1000, vec![1]),
        ]),
        "0\n12\n1000\n"
    );
}

#[test]
fn hits_are_counted_for_each_filter() {
    assert!(FilterStats::count(&[]).entries().is_empty());
    let found = vec![
        FilterMatch::new(1, vec![0, 2]),
        FilterMatch::new(2, vec![2]),
        FilterMatch::new(5, vec![]),
        FilterMatch::new(6, vec![255, 2, 0]),
    ];
    assert_eq!(
        FilterStats::count(&found).entries(),
        &vec![(0u8, 2u64), (2, 3), (255, 1)]
    );
    assert_eq!(
        FilterStats::new(vec![(3, 4)]).entries(),
        &vec![(3u8, 4u64)]
    );
}

#[test]
fn filters_are_compiled_one_by_one_and_together() {
    let filters = vec![
        SearchFilter::new("a.b").regex(false),
        SearchFilter::new("c+").ignore_case(true),
        SearchFilter::new("d").word(true),
    ];
    assert_eq!(
        filters.iter().map(filter_as_regex).collect::<Vec<String>>(),
        vec!["a\\.b", "(?i)c+(?-i)", "\\bd\\b"]
    );
    assert_eq!(combined_regex(&filters), "(a\\.b|(?i)c+(?-i)|\\bd\\b)");
    assert_eq!(combined_regex(&[]), "()");
    let regexes = compile_filters(&filters).unwrap();
    assert_eq!(regexes.len(), 3);
    assert_eq!(classify_line(&regexes, "xa.bx CC d"), vec![0u8, 1, 2]);
    assert_eq!(classify_line(&regexes, "aXb cd"), vec![1u8]);
    assert!(classify_line(&regexes, "nothing").is_empty());
    assert!(matches!(
        compile_filters(&[SearchFilter::new("a"), SearchFilter::new("(")]),
        Err(SearchError::Regex(_))
    ));
    assert!(matches!(compile_filter("[a-"), Err(SearchError::Regex(_))));
    assert!(compile_filter("[a-z]+").is_ok());
}

#[test]
fn more_than_256_filters_share_their_indices() {
    let mut filters: Vec<SearchFilter> = Vec::new();
    for _ in 0..257 {
        filters.push(SearchFilter::new("never").regex(false));
    }
    filters[1] = SearchFilter::new("x").regex(false);
    filters[256] = SearchFilter::new("x").regex(false);
    let regexes = compile_filters(&filters).unwrap();
    assert_eq!(classify_line(&regexes, "x"), vec![1u8, 0]);
}

#[test]
fn values_are_extracted_from_capture_groups() {
    let regexes = vec![
        compile_filter("(\\d+)-(\\d+)").unwrap(),
        compile_filter("plain").unwrap(),
        compile_filter("(a)|(b)").unwrap(),
    ];
    let values = ExtractedMatchValue::extract("plain 1-2 and 30-40, b", &regexes);
    assert_eq!(
        values,
        vec![
            (0usize, vec![String::from("1"), String::from("2")]),
            (0, vec![String::from("30"), String::from("40")]),
            (2, vec![String::from("a")]),
            (2, vec![String::from("a")]),
            (2, vec![String::from("b")]),
        ]
    );
    let value = ExtractedMatchValue::new(4, "x=1-2", &regexes);
    assert_eq!(value.index, 4);
    assert_eq!(
        value.values,
        vec![(0usize, vec![String::from("1"), String::from("2")])]
    );
    assert!(ExtractedMatchValue::extract("nothing", &regexes).is_empty());
}

#[test]
fn matches_are_extracted_from_the_whole_file() {
    let filters = vec![
        SearchFilter::new("cpu=(\\d+)"),
        SearchFilter::new("mem").regex(false),
    ];
    let extractor = MatchesExtractor::new("/tmp/a.session", &filters);
    assert_eq!(extractor.file_path, "/tmp/a.session");
    let values = extractor
        .extract_matches(b"cpu=10 mem\nnothing\nmem only\ncpu=7 cpu=8")
        .unwrap();
    // the line that matches a filter without capture groups only is skipped
    assert_eq!(values.len(), 2);
    assert_eq!(values[0].index, 0);
    assert_eq!(values[0].values, vec![(0usize, vec![String::from("10")])]);
    assert_eq!(values[1].index, 3);
    assert_eq!(
        values[1].values,
        vec![
            (0usize, vec![String::from("7")]),
            (0, vec![String::from("8")])
        ]
    );
    let plain = MatchesExtractor::new("/tmp/a.session", &[SearchFilter::new("mem")]);
    assert!(plain.extract_matches(b"mem\nmem\n").unwrap().is_empty());
    let none = MatchesExtractor::new("/tmp/a.session", &[]);
    match none.extract_matches(b"a\n") {
        Err(SearchError::Input(m)) => assert_eq!(m, "Cannot search without filters"),
        _ => panic!("an input error was expected"),
    }
    let broken = MatchesExtractor::new("/tmp/a.session", &[SearchFilter::new("(")]);
    assert!(matches!(
        broken.extract_matches(b"a\n"),
        Err(SearchError::Regex(_))
    ));
}

#[test]
fn a_matching_line_that_is_not_utf8_is_an_io_error() {
    let filters = vec![SearchFilter::new("a").regex(false)];
    let mut holder = SearchHolder::new("/tmp/a.session", &filters, 1);
    let r = holder.execute_search(b"a\xff\n", &tokio_util::sync::CancellationToken::new());
    assert!(matches!(r, Err(SearchError::IoOperation(_))));
    assert_eq!(holder.lines_read(), 0);
    assert_eq!(holder.bytes_read(), 0);
}

#[test]
fn a_very_long_line_is_found_once() {
    let filters = vec![SearchFilter::new("needle").regex(false)];
    let mut holder = SearchHolder::new("/tmp/a.session", &filters, 1);
    let mut file = String::from("_first\n");
    file.push_str(&"x".repeat(1024 * 1024 - 3));
    file.push_str("needle");
    file.push_str(&"y".repeat(20 * 1024));
    file.push_str("\nlast needle\n");
    let (_, found, stats) = holder
        .execute_search(&file.as_bytes()[1..], &tokio_util::sync::CancellationToken::new())
        .unwrap();
    assert_eq!(result_lines(&found), "1\n2\n");
    assert_eq!(stats.entries(), &vec![(0u8, 2u64)]);
    assert_eq!(holder.lines_read(), 3);
}

#[test]
fn search_errors_as_text() {
    assert_eq!(
        SearchError::Config(String::from("c")).message(),
        "Configuration error (c)"
    );
    assert_eq!(
        SearchError::Communication(String::from("c")).message(),
        "Channel-Communication error (c)"
    );
    assert_eq!(
        SearchError::IoOperation(String::from("i")).message(),
        "IO error while grabbing: (i)"
    );
    assert_eq!(
        SearchError::Regex(String::from("r")).message(),
        "Regex-Error: (r)"
    );
    assert_eq!(
        SearchError::Input(String::from("in")).message(),
        "Input-Error: (in)"
    );
    assert_eq!(
        SearchError::Grab(GrabError::Interrupted).message(),
        "GrabError error (Grabbing interrupted)"
    );
}
