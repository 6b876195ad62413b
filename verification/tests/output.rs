use treehash::Config;
use treehash::job::Outcome;
use treehash::output::Emit;
use treehash::output::Success;
use treehash::output::render_success;
use treehash::output::sort_successes;
use treehash::output::sorted_output;
use treehash::output::str_le;
use treehash::output::triage;
use treehash::output::unsorted_output;
use treehash::preflight;

const HELLO_SHA1: &str = "aaf4c61ddcc5e8a2dabede0f3b482cd9aea9434d";

fn success(path: &str, hash: &str) -> Success {
    Success { path: path.to_string(), hash: hash.to_string() }
}

#[test]
fn success_line_is_hash_tab_path() {
    let line = render_success("dir/a.txt", HELLO_SHA1);
    assert_eq!(line, format!("{}\tdir/a.txt", HELLO_SHA1));
}

#[test]
fn str_le_orders_byte_wise() {
    assert!(str_le("0a", "0b"));
    assert!(!str_le("0b", "0a"));
    assert!(str_le("abc", "abc"));
    assert!(str_le("ab", "abc"));
    assert!(!str_le("abc", "ab"));
    assert!(str_le("", "a"));
}

#[test]
fn triage_suppresses_ignored_when_quiet() {
    let o = Outcome::Ignored { path: "sub".to_string() };
    assert!(matches!(triage(o, false), Emit::Quiet));
}

#[test]
fn triage_reports_ignored_when_verbose() {
    let o = Outcome::Ignored { path: "sub".to_string() };
    match triage(o, true) {
        Emit::Status(line) => assert_eq!(line, "Ignored(sub)"),
        _ => panic!("expected a status line for an ignored entry under verbose"),
    }
}

#[test]
fn triage_always_reports_errors() {
    let o = Outcome::ReadError { path: "a".to_string(), message: "denied".to_string() };
    match triage(o, false) {
        Emit::Status(line) => assert_eq!(line, "Io(denied)"),
        _ => panic!("read errors must be reported even when quiet"),
    }
    let o = Outcome::TraversalFailed { message: "bad dir".to_string() };
    match triage(o, false) {
        Emit::Status(line) => assert_eq!(line, "WalkDir(bad dir)"),
        _ => panic!("traversal failures must be reported even when quiet"),
    }
}

#[test]
fn triage_hands_successes_on() {
    let o = Outcome::Hashed { path: "a.txt".to_string(), hash: HELLO_SHA1.to_string() };
    match triage(o, false) {
        Emit::Success(s) => {
            assert_eq!(s.path, "a.txt");
            assert_eq!(s.hash, HELLO_SHA1);
        }
        _ => panic!("a success must always be handed on"),
    }
}

#[test]
fn sort_orders_by_hash_and_keeps_everything() {
    let v = vec![
        success("c", "ffff"),
        success("a", "0000"),
        success("b", "aaaa"),
        success("d", "0000"),
    ];
    let sorted = sort_successes(v);
    let hashes: Vec<&str> = sorted.iter().map(|s| s.hash.as_str()).collect();
    assert_eq!(hashes, vec!["0000", "0000", "aaaa", "ffff"]);
    let mut paths: Vec<&str> = sorted.iter().map(|s| s.path.as_str()).collect();
    paths.sort();
    assert_eq!(paths, vec!["a", "b", "c", "d"]);
}

#[test]
fn unsorted_output_reports_everything_exactly_once() {
    let outcomes = vec![
        Outcome::Hashed { path: "z.txt".to_string(), hash: "ffff".to_string() },
        Outcome::ReadError { path: "x".to_string(), message: "denied".to_string() },
        Outcome::Hashed { path: "a.txt".to_string(), hash: "0000".to_string() },
        Outcome::Ignored { path: "sub".to_string() },
    ];
    let (successes, statuses) = unsorted_output(outcomes, false);
    assert_eq!(successes, vec!["ffff\tz.txt".to_string(), "0000\ta.txt".to_string()]);
    assert_eq!(statuses, vec!["Io(denied)".to_string()]);
}

#[test]
fn sorted_output_prints_non_decreasing_by_hash() {
    let outcomes = vec![
        Outcome::Hashed { path: "z.txt".to_string(), hash: "ffff".to_string() },
        Outcome::Hashed { path: "m.txt".to_string(), hash: "aaaa".to_string() },
        Outcome::Hashed { path: "a.txt".to_string(), hash: "0000".to_string() },
    ];
    let (successes, statuses) = sorted_output(outcomes, false);
    assert_eq!(
        successes,
        vec!["0000\ta.txt".to_string(), "aaaa\tm.txt".to_string(), "ffff\tz.txt".to_string()]
    );
    assert!(statuses.is_empty());
}

#[test]
fn scenario_two_equal_files_and_an_empty_directory() {
    // Root holds a.txt ("hello"), b.txt ("hello") and the empty
    // directory sub: two success lines with the same hash, adjacent
    // once sorted; sub is silent unless verbose.
    let outcomes = || {
        vec![
            Outcome::Hashed { path: "b.txt".to_string(), hash: HELLO_SHA1.to_string() },
            Outcome::Ignored { path: "sub".to_string() },
            Outcome::Hashed { path: "a.txt".to_string(), hash: HELLO_SHA1.to_string() },
        ]
    };

    let (successes, statuses) = sorted_output(outcomes(), false);
    assert_eq!(successes.len(), 2);
    let hash_of = |line: &String| line.split('\t').next().unwrap().to_string();
    assert_eq!(hash_of(&successes[0]), HELLO_SHA1);
    assert_eq!(hash_of(&successes[1]), HELLO_SHA1);
    assert!(statuses.is_empty());

    let (successes, statuses) = sorted_output(outcomes(), true);
    assert_eq!(successes.len(), 2);
    assert_eq!(statuses, vec!["Ignored(sub)".to_string()]);
}

#[test]
fn preflight_accepts_an_existing_root() {
    assert_eq!(preflight("some/dir", true), Ok(()));
}

#[test]
fn preflight_refuses_a_missing_root() {
    // A missing root is the one fatal condition; the message names the
    // missing path and the caller exits non-zero without hashing anything.
    let err = preflight("no/such/dir", false).unwrap_err();
    assert_eq!(err, "root path does not exist: no/such/dir");
    assert!(err.contains("no/such/dir"));
}

#[test]
fn default_config_is_eight_quiet_streaming_workers() {
    let c = Config::default();
    assert_eq!(c.pool_size, 8);
    assert!(!c.sort_output);
    assert!(!c.verbose);
}
