use kberry::{
    aggregate_logs, filter_logs, join_lines, label_selector, log_file_name, log_sink, named_pods,
    select_lines, tag_line, FetchError, LinePattern, LogCollector, LogReport, LogSink,
};

fn names(v: &[&str]) -> Vec<String> {
    v.iter().map(|s| s.to_string()).collect()
}

fn ok(s: &str) -> Result<String, String> {
    Ok(s.to_string())
}

fn failed() -> Result<String, String> {
    Err("pod not found".to_string())
}

fn logs(s: &str) -> Result<LogReport, FetchError> {
    Ok(LogReport::Logs(s.to_string()))
}

#[test]
fn pattern_keeps_only_matching_pods_and_lines() {
    let r = aggregate_logs(names(&["a", "b"]), vec![ok("x\nERROR y"), ok("z")], Some("ERROR"));
    assert_eq!(r, logs("[a]: ERROR y"));
}

#[test]
fn failed_retrieval_is_skipped() {
    let r = aggregate_logs(names(&["a", "b"]), vec![ok("hello"), failed()], None);
    assert_eq!(r, logs("[a]: hello"));
}

#[test]
fn no_pods_is_reported() {
    let r = aggregate_logs(Vec::new(), Vec::new(), None);
    assert_eq!(r, Err(FetchError::NoPodsFound));
}

#[test]
fn no_pods_comes_before_a_bad_pattern() {
    let r = aggregate_logs(Vec::new(), Vec::new(), Some("("));
    assert_eq!(r, Err(FetchError::NoPodsFound));
}

#[test]
fn bad_pattern_is_fatal() {
    let r = aggregate_logs(names(&["a"]), vec![ok("x")], Some("("));
    match r {
        Err(FetchError::InvalidPattern(e)) => {
            assert_eq!(e.pattern, "(");
            assert!(!e.message.is_empty());
        }
        other => panic!("unexpected {:?}", other),
    }
}

#[test]
fn unfiltered_output_is_every_line_in_pod_order() {
    let r = aggregate_logs(
        names(&["a", "b", "c"]),
        vec![ok("1\n2\n"), ok(""), ok("3")],
        None,
    );
    assert_eq!(r, logs("[a]: 1\n[a]: 2\n[c]: 3"));
}

#[test]
fn pattern_matches_anywhere_in_the_line() {
    let r = aggregate_logs(
        names(&["p"]),
        vec![ok("one\ntwo\nthree\nfour")],
        Some("o"),
    );
    assert_eq!(r, logs("[p]: one\n[p]: two\n[p]: four"));
}

#[test]
fn pattern_is_a_regex() {
    let r = aggregate_logs(
        names(&["p"]),
        vec![ok("code 404\ncode 200\nno code")],
        Some("[0-9]{3}$"),
    );
    assert_eq!(r, logs("[p]: code 404\n[p]: code 200"));
}

#[test]
fn completion_order_does_not_change_output() {
    let pods = names(&["first", "second"]);
    let mut c1 = LogCollector::new(pods.clone(), None).unwrap();
    c1.record(0, ok("alpha"));
    c1.record(1, ok("beta"));
    let mut c2 = LogCollector::new(pods, None).unwrap();
    c2.record(1, ok("beta"));
    c2.record(0, ok("alpha"));
    let expected = LogReport::Logs("[first]: alpha\n[second]: beta".to_string());
    assert_eq!(c1.report(), expected);
    assert_eq!(c2.report(), expected);
}

#[test]
fn failed_pod_in_the_middle_keeps_relative_order() {
    let r = aggregate_logs(
        names(&["a", "b", "c"]),
        vec![ok("1"), failed(), ok("3")],
        None,
    );
    assert_eq!(r, logs("[a]: 1\n[c]: 3"));
}

#[test]
fn all_failed_is_no_matching_logs() {
    let r = aggregate_logs(names(&["a", "b"]), vec![failed(), failed()], None);
    assert_eq!(r, Ok(LogReport::NoMatchingLogs));
}

#[test]
fn all_filtered_out_is_no_matching_logs() {
    let r = aggregate_logs(names(&["a", "b"]), vec![ok("x"), ok("y\nz")], Some("ERROR"));
    assert_eq!(r, Ok(LogReport::NoMatchingLogs));
}

#[test]
fn empty_logs_are_no_matching_logs() {
    let r = aggregate_logs(names(&["a"]), vec![ok("")], None);
    assert_eq!(r, Ok(LogReport::NoMatchingLogs));
}

#[test]
fn unrecorded_slots_contribute_nothing() {
    let mut c = LogCollector::new(names(&["a", "b"]), Some("x")).unwrap();
    assert_eq!(c.len(), 2);
    assert_eq!(c.pod_name(1), "b");
    assert_eq!(c.report(), LogReport::NoMatchingLogs);
    c.record(1, ok("x1\ny"));
    assert_eq!(c.report(), LogReport::Logs("[b]: x1".to_string()));
}

#[test]
fn file_and_console_receive_the_same_text() {
    let text = "[a]: hello\n[b]: world".to_string();
    let file = log_sink("web", text.clone(), true);
    let console = log_sink("web", text.clone(), false);
    assert_eq!(
        file,
        LogSink::File { path: "web_logs.txt".to_string(), contents: text.clone() }
    );
    assert_eq!(console, LogSink::Console(text));
}

#[test]
fn line_terminators_are_dropped() {
    assert_eq!(
        filter_logs("p", "a\nb\r\nc\n", None),
        Some("[p]: a\n[p]: b\n[p]: c".to_string())
    );
    assert_eq!(filter_logs("p", "\n\nx", None), Some("[p]: \n[p]: \n[p]: x".to_string()));
    assert_eq!(filter_logs("p", "\n", None), Some("[p]: ".to_string()));
}

#[test]
fn join_lines_uses_single_newlines() {
    assert_eq!(join_lines(&names(&["a", "", "b"])), "a\n\nb");
    assert_eq!(join_lines(&Vec::new()), "");
}

#[test]
fn tag_line_prefixes_pod_name() {
    assert_eq!(tag_line("web-1", "started"), "[web-1]: started");
}

#[test]
fn filter_logs_without_pattern_tags_every_line() {
    assert_eq!(filter_logs("p", "a\nb", None), Some("[p]: a\n[p]: b".to_string()));
    assert_eq!(filter_logs("p", "", None), None);
}

#[test]
fn filter_logs_with_pattern() {
    let p = LinePattern::new("warn|error").unwrap();
    assert_eq!(p.as_str(), "warn|error");
    assert_eq!(
        filter_logs("p", "ok\nwarn: disk\nerror: net", Some(&p)),
        Some("[p]: warn: disk\n[p]: error: net".to_string())
    );
    assert_eq!(filter_logs("p", "ok\nfine", Some(&p)), None);
}

#[test]
fn select_lines_follows_flags() {
    let lines = names(&["a", "b", "c"]);
    assert_eq!(
        select_lines("q", &lines, &vec![true, false, true]),
        Some("[q]: a\n[q]: c".to_string())
    );
    assert_eq!(select_lines("q", &lines, &vec![false, false, false]), None);
}

#[test]
fn invalid_pattern_is_refused() {
    assert!(LinePattern::new("[unclosed").is_err());
    assert!(LinePattern::new("ok").is_ok());
}

#[test]
fn label_selector_and_file_name() {
    assert_eq!(label_selector("web"), "app=web");
    assert_eq!(log_file_name("web"), "web_logs.txt");
}

#[test]
fn named_pods_skips_nameless() {
    let r = named_pods(vec![Some("a".to_string()), None, Some("c".to_string())]);
    assert_eq!(r, names(&["a", "c"]));
}
