use sonic_grep::config::{work_capacity, Config, DEFAULT_WORKERS};
use sonic_grep::engine::{collect, search, MatchResult, WorkItem};
use sonic_grep::matcher::{contains_chars, line_matches, normalize};
use sonic_grep::pipeline::{
    DispatchAction, DispatchState, Dispatcher, SourceEvent, Worker, WorkerAction, WorkerEvent,
    WorkerState,
};
use sonic_grep::source::split_lines;

fn strings(v: &[&str]) -> Vec<String> {
    v.iter().map(|s| s.to_string()).collect()
}

fn pairs(r: &[MatchResult]) -> Vec<(usize, String)> {
    r.iter().map(|m| (m.line_number, m.text.clone())).collect()
}

fn config(query: &str, ignore_case: bool) -> Config {
    Config::build(&strings(&["prog", query, "file.txt"]), ignore_case).unwrap()
}

/// Runs dispatcher, `n` workers and collector in one thread; the workers take
/// items in turn, and each worker's matches are reported after all others of
/// lower index when `reverse` is false, higher when true.
fn run_pool(contents: &str, query: &str, ignore_case: bool, n: usize, reverse: bool) -> Vec<(usize, String)> {
    let cfg = config(query, ignore_case);
    let mut dispatcher = Dispatcher::new();
    let mut queue: Vec<WorkItem> = Vec::new();
    for line in split_lines(contents) {
        match dispatcher.step(SourceEvent::Line(line)) {
            DispatchAction::Send(item) => queue.push(item),
            _ => panic!("dispatcher stopped early"),
        }
    }
    assert!(matches!(dispatcher.step(SourceEvent::Exhausted), DispatchAction::Close));
    let mut workers: Vec<Worker> = (0..n).map(|_| Worker::new(&cfg)).collect();
    let mut outboxes: Vec<Vec<MatchResult>> = (0..n).map(|_| Vec::new()).collect();
    for (i, item) in queue.into_iter().enumerate() {
        match workers[i % n].step(WorkerEvent::Received(item)) {
            WorkerAction::Forward(m) => outboxes[i % n].push(m),
            WorkerAction::Discard => {}
            WorkerAction::Exit => panic!("worker exited early"),
        }
    }
    for w in workers.iter_mut() {
        assert!(matches!(w.step(WorkerEvent::ChannelClosed), WorkerAction::Exit));
        assert!(matches!(w.state, WorkerState::Done));
    }
    if reverse {
        outboxes.reverse();
    }
    let arrived: Vec<MatchResult> = outboxes.into_iter().flatten().collect();
    pairs(&collect(arrived))
}

const FRUIT: &str = "apple\nbanana\napple pie\n";

#[test]
fn scenario_apple_case_sensitive() {
    let r = search(&split_lines(FRUIT), "apple", false);
    assert_eq!(pairs(&r), vec![(1, "apple".to_string()), (3, "apple pie".to_string())]);
}

#[test]
fn scenario_apple_ignore_case() {
    let r = search(&split_lines(FRUIT), "APPLE", true);
    assert_eq!(pairs(&r), vec![(1, "apple".to_string()), (3, "apple pie".to_string())]);
    let s = search(&split_lines(FRUIT), "APPLE", false);
    assert!(s.is_empty());
}

#[test]
fn case_policy_decides_foo() {
    assert!(line_matches("a foobar line", "Foo", true));
    assert!(!line_matches("a foobar line", "Foo", false));
}

#[test]
fn empty_query_matches_every_line() {
    let r = search(&split_lines("x\n\nyz\n"), "", false);
    assert_eq!(pairs(&r), vec![(1, "x".to_string()), (2, String::new()), (3, "yz".to_string())]);
    assert!(line_matches("", "", true));
}

#[test]
fn empty_file_yields_nothing() {
    let lines = split_lines("");
    assert!(lines.is_empty());
    assert!(search(&lines, "a", false).is_empty());
    for n in [1usize, 2, 16] {
        assert!(run_pool("", "a", false, n, false).is_empty());
    }
}

#[test]
fn pool_order_independent_of_worker_count() {
    let contents = "one apple\ntwo\nthree apple\nfour\nApple five\nsix apple\nseven\napple\n";
    let expected = vec![
        (1, "one apple".to_string()),
        (3, "three apple".to_string()),
        (6, "six apple".to_string()),
        (8, "apple".to_string()),
    ];
    for n in [1usize, 2, 16] {
        assert_eq!(run_pool(contents, "apple", false, n, false), expected);
        assert_eq!(run_pool(contents, "apple", false, n, true), expected);
    }
    assert_eq!(run_pool(contents, "APPLE", true, 1, false).len(), 5);
    assert_eq!(run_pool(contents, "APPLE", true, 16, true), run_pool(contents, "APPLE", true, 1, false));
}

#[test]
fn pool_matches_sequential_search() {
    let r = run_pool(FRUIT, "apple", false, 2, true);
    assert_eq!(r, pairs(&search(&split_lines(FRUIT), "apple", false)));
}

#[test]
fn split_lines_handles_endings() {
    assert_eq!(split_lines("a\r\nb\nc"), strings(&["a", "b", "c"]));
    assert_eq!(split_lines("\n"), strings(&[""]));
    assert_eq!(split_lines("a\n\n"), strings(&["a", ""]));
    assert_eq!(split_lines("no newline"), strings(&["no newline"]));
    assert_eq!(split_lines("é\nü"), strings(&["é", "ü"]));
}

#[test]
fn normalize_lowercases_only_when_asked() {
    assert_eq!(normalize("ApPLE", true), "apple");
    assert_eq!(normalize("ApPLE", false), "ApPLE");
    assert_eq!(normalize("", true), "");
}

#[test]
fn substring_search() {
    let c = |s: &str| s.chars().collect::<Vec<char>>();
    assert!(contains_chars(&c("banana"), &c("nan")));
    assert!(contains_chars(&c("banana"), &c("banana")));
    assert!(!contains_chars(&c("banana"), &c("bananas")));
    assert!(!contains_chars(&c("banana"), &c("nab")));
    assert!(contains_chars(&c(""), &c("")));
    assert!(!contains_chars(&c(""), &c("a")));
}

#[test]
fn collect_sorts_by_line_number() {
    let m = |n: usize, t: &str| MatchResult { text: t.to_string(), line_number: n };
    let r = collect(vec![m(5, "e"), m(1, "a"), m(3, "c"), m(2, "b")]);
    assert_eq!(pairs(&r), vec![(1, "a".to_string()), (2, "b".to_string()), (3, "c".to_string()), (5, "e".to_string())]);
    assert!(collect(Vec::new()).is_empty());
}

#[test]
fn build_needs_three_arguments() {
    assert_eq!(Config::build(&strings(&["prog", "q"]), false).err(), Some("Not enough arguments!"));
    assert!(Config::build(&[], true).is_err());
    let c = Config::build(&strings(&["prog", "FoO", "f.txt", "extra"]), true).unwrap();
    assert_eq!(c.query, "FoO");
    assert_eq!(c.query_lowercased, "foo");
    assert_eq!(c.file_path, "f.txt");
    assert!(c.ignore_case);
    assert_eq!(c.num_workers, DEFAULT_WORKERS);
    assert_eq!(DEFAULT_WORKERS, 8);
}

#[test]
fn capacity_grows_with_workers() {
    assert_eq!(work_capacity(8), 128);
    assert_eq!(work_capacity(1), 16);
}

#[test]
fn dispatcher_numbers_and_stops() {
    let mut d = Dispatcher::new();
    match d.step(SourceEvent::Line("x".to_string())) {
        DispatchAction::Send(item) => {
            assert_eq!(item.line_number, 1);
            assert_eq!(item.text, "x");
        }
        _ => panic!("expected a send"),
    }
    match d.step(SourceEvent::Line("y".to_string())) {
        DispatchAction::Send(item) => assert_eq!(item.line_number, 2),
        _ => panic!("expected a send"),
    }
    assert!(matches!(d.step(SourceEvent::SendFailed), DispatchAction::Stop));
    assert!(matches!(d.state, DispatchState::Finished));
    assert!(matches!(d.step(SourceEvent::Line("z".to_string())), DispatchAction::Stop));
    assert_eq!(d.next_line, 3);
}

#[test]
fn worker_exits_when_report_fails() {
    let cfg = config("Foo", true);
    let mut w = Worker::new(&cfg);
    let item = WorkItem { text: "a foobar line".to_string(), line_number: 4 };
    match w.step(WorkerEvent::Received(item)) {
        WorkerAction::Forward(m) => {
            assert_eq!(m.line_number, 4);
            assert_eq!(m.text, "a foobar line");
        }
        _ => panic!("expected a match"),
    }
    assert!(matches!(w.step(WorkerEvent::ResultSendFailed), WorkerAction::Exit));
    let late = WorkItem { text: "foo".to_string(), line_number: 5 };
    assert!(matches!(w.step(WorkerEvent::Received(late)), WorkerAction::Exit));
}
