use load_balancer::config::parse_worker_list;

#[test]
fn every_terminated_line_is_an_address() {
    assert_eq!(
        parse_worker_list("127.0.0.1:9001\n127.0.0.1:9002\n"),
        vec!["127.0.0.1:9001".to_string(), "127.0.0.1:9002".to_string()]
    );
}

#[test]
fn text_after_the_last_line_feed_is_dropped() {
    assert_eq!(parse_worker_list("a:1\nb:2"), vec!["a:1".to_string()]);
    assert_eq!(parse_worker_list("a:1"), Vec::<String>::new());
}

#[test]
fn empty_file_has_no_address() {
    assert_eq!(parse_worker_list(""), Vec::<String>::new());
}

#[test]
fn empty_lines_are_kept() {
    assert_eq!(parse_worker_list("\n"), vec![String::new()]);
    assert_eq!(
        parse_worker_list("a:1\n\nb:2\n"),
        vec!["a:1".to_string(), String::new(), "b:2".to_string()]
    );
}

#[test]
fn carriage_returns_stay_in_the_address() {
    assert_eq!(parse_worker_list("a:1\r\n"), vec!["a:1\r".to_string()]);
}

#[test]
fn addresses_beyond_ascii_are_kept_whole() {
    assert_eq!(
        parse_worker_list("h\u{f6}st:1\n\u{1f980}:2\n"),
        vec!["h\u{f6}st:1".to_string(), "\u{1f980}:2".to_string()]
    );
}

#[test]
fn parsed_list_matches_split_and_drop_last() {
    for contents in ["a\nb\nc\n", "a\nb\nc", "\n\n", "x", "x\n", "one\ntwo\n\n"] {
        let mut expected: Vec<String> = contents.split('\n').map(|x| x.to_string()).collect();
        expected.remove(expected.len() - 1);
        assert_eq!(parse_worker_list(contents), expected);
    }
}
