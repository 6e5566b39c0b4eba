use session_core::process::{
    assemble_args, replace_all, ProcessError, ProcessSource, ReloadInfo, SourceError,
};

#[test]
fn test_parsing() {
    let parsed = ProcessSource::parse_args(vec![
        String::from("arg1"),
        String::from("arg2"),
        String::from(r#""some_path/with"#),
        String::from("space"),
        String::from("or"),
        String::from(r#"spaces""#),
        String::from("arg3"),
    ])
    .unwrap();
    assert_eq!(parsed.len(), 4);
    assert_eq!(parsed[0], String::from("arg1"));
    assert_eq!(parsed[1], String::from("arg2"));
    assert_eq!(parsed[2], String::from("some_path/with space or spaces"));
    assert_eq!(parsed[3], String::from("arg3"));
    let parsed = ProcessSource::parse_args(
        r#"arg1 arg2 "some_path/with space or spaces" arg3"#
            .split(" ")
            .into_iter()
            .map(|s| s.to_string())
            .collect::<Vec<String>>(),
    )
    .unwrap();
    assert_eq!(parsed.len(), 4);
    assert_eq!(parsed[0], String::from("arg1"));
    assert_eq!(parsed[1], String::from("arg2"));
    assert_eq!(parsed[2], String::from("some_path/with space or spaces"));
    assert_eq!(parsed[3], String::from("arg3"));
}

fn parse(line: &str) -> Vec<String> {
    ProcessSource::parse_args(line.split(' ').map(|s| s.to_string()).collect()).unwrap()
}

#[test]
fn groups_in_quotes_stay_together() {
    assert_eq!(parse("a b"), vec!["a", "b"]);
    assert_eq!(parse(r#""a b""#), vec!["a b"]);
    assert_eq!(parse(r#"x"a b"y z"#), vec!["xa by", "z"]);
    assert_eq!(parse(r#""a b" "c d" e"#), vec!["a b", "c d", "e"]);
    assert_eq!(parse(r#""" a"#), vec!["", "a"]);
    assert_eq!(parse("a  b"), vec!["a", "", "b"]);
    assert_eq!(parse(""), vec![""]);
    // a quote that is not closed is kept
    assert_eq!(parse(r#"a "b c"#), vec!["a", "\"b", "c"]);
    // eleven groups: the placeholder of group 1 is no part of that of group 10
    let line = (0..11)
        .map(|i| format!("\"g {}\"", i))
        .collect::<Vec<String>>()
        .join(" ");
    let expected: Vec<String> = (0..11).map(|i| format!("g {}", i)).collect();
    assert_eq!(parse(&line), expected);
    assert_eq!(ProcessSource::parse_args(vec![]).unwrap(), vec![""]);
}

#[test]
fn a_placeholder_in_the_arguments_is_taken_for_a_group() {
    assert_eq!(
        parse(r#""a b" ==extraction:(0)=="#),
        vec!["a b", "a b"]
    );
    assert_eq!(parse("==extraction:(0)=="), vec!["==extraction:(0)=="]);
}

#[test]
fn arguments_are_made_of_a_masked_text_and_its_groups() {
    let groups = vec![String::from("x y"), String::from("z")];
    assert_eq!(
        assemble_args("a ==extraction:(0)== b==extraction:(1)==", &groups),
        vec![
            String::from("a"),
            String::from("x y"),
            String::from("bz")
        ]
    );
    assert_eq!(
        assemble_args("a b", &vec![]),
        vec![String::from("a"), String::from("b")]
    );
    assert_eq!(assemble_args("", &vec![]), vec![String::from("")]);
    // a placeholder without its group stays as it is
    assert_eq!(
        assemble_args("==extraction:(2)==", &groups),
        vec![String::from("==extraction:(2)==")]
    );
    // a group that holds the placeholder of a later group takes that group in
    let nested = vec![String::from("==extraction:(1)=="), String::from("late")];
    assert_eq!(
        assemble_args("==extraction:(0)==", &nested),
        vec![String::from("late")]
    );
}

#[test]
fn replace_all_goes_from_the_left() {
    assert_eq!(replace_all("aaa", "aa", "b"), "ba");
    assert_eq!(replace_all("abcabc", "bc", ""), "aa");
    assert_eq!(replace_all("abc", "", "x"), "abc");
    assert_eq!(replace_all("", "a", "x"), "");
    assert_eq!(replace_all("abc", "abcd", "x"), "abc");
    assert_eq!(replace_all("a.b.c", ".", ".."), "a..b..c");
    assert_eq!("aaa".replace("aa", "b"), replace_all("aaa", "aa", "b"));
}

#[test]
fn a_process_source_keeps_the_lines_printed() {
    let mut source = ProcessSource::new();
    assert!(source.is_empty());
    assert_eq!(source.len(), 0);
    assert_eq!(source.store(None).unwrap(), None);
    match source.store(Some(Err(String::from("broken pipe")))) {
        Err(SourceError::Unrecoverable(m)) => assert_eq!(m, "broken pipe"),
        other => panic!("unexpected: {:?}", other),
    }
    assert!(source.is_empty());
    let info = source.store(Some(Ok(String::from("first")))).unwrap();
    assert_eq!(info, Some(ReloadInfo::new(6, 6, 0, None)));
    assert_eq!(source.current_slice(), b"first\n");
    source.store(Some(Ok(String::from("2nd")))).unwrap();
    assert_eq!(source.current_slice(), b"first\n2nd\n");
    assert_eq!(source.len(), 10);
    source.consume(6);
    assert_eq!(source.current_slice(), b"2nd\n");
    source.consume(100);
    assert!(source.is_empty());
    assert_eq!(source.current_slice(), b"");
}

#[test]
fn the_end_of_the_error_stream_is_not_the_end_of_the_output() {
    assert!(ProcessSource::is_closing(true, true));
    assert!(!ProcessSource::is_closing(true, false));
    assert!(!ProcessSource::is_closing(false, true));
    assert!(!ProcessSource::is_closing(false, false));
}

#[test]
fn process_errors_as_text() {
    assert_eq!(
        ProcessError::Setup(String::from("no such file")).message(),
        "Process setup problem: no such file"
    );
    assert_eq!(
        ProcessError::Unrecoverable(String::from("killed")).message(),
        "Unrecoverable process error: killed"
    );
}
