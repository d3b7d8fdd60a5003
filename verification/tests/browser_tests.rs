//! Browsers: their life cycle and the search for an executable.

use html_to_pdf_rust::browser::instance::{
    connection_lost, elapsed, launch_args, user_data_dir_name, BrowserInstance, HandlerEvent,
    PingOutcome,
};
use html_to_pdf_rust::browser::{
    find_chrome_executable, validate_chrome_path, ChromeSearch, PathLookup, ProbeAction, ProbeInput,
    RunOutcome, SearchAction, SearchInput,
};
use html_to_pdf_rust::error::ChromePathError;

const SEC: u128 = 1_000_000_000;

#[test]
fn a_browser_retires_by_age_or_by_use() {
    let mut browser = BrowserInstance::new(7, 5 * SEC);
    assert!(browser.is_healthy());
    assert!(!browser.should_retire(1205 * SEC));
    assert!(browser.should_retire(1205 * SEC + 1));
    assert_eq!(browser.age(8 * SEC), 3 * SEC);
    assert_eq!(browser.age(1), 0);
    for n in 1..=31_u128 {
        assert!(!browser.should_retire(6 * SEC));
        browser.mark_used(6 * SEC + n);
    }
    assert_eq!(browser.usage_count, 31);
    assert!(browser.should_retire(7 * SEC));
}

#[test]
fn a_browser_idles_after_five_minutes_without_use() {
    let mut browser = BrowserInstance::new(1, 0);
    assert!(!browser.is_idle_too_long(300 * SEC));
    assert!(browser.is_idle_too_long(300 * SEC + 1));
    browser.mark_used(200 * SEC);
    assert!(!browser.is_idle_too_long(500 * SEC));
    assert_eq!(browser.idle_time(500 * SEC), 300 * SEC);
    assert_eq!(browser.created_at, 0);
    assert_eq!(elapsed(5, 3), 0);
}

#[test]
fn a_browser_that_is_marked_stays_unhealthy() {
    let mut browser = BrowserInstance::new(1, 0);
    browser.mark_unhealthy();
    browser.mark_used(1);
    assert!(!browser.is_healthy());
}

#[test]
fn only_an_answer_in_time_counts() {
    assert!(BrowserInstance::health_ping(PingOutcome::Answered));
    assert!(!BrowserInstance::health_ping(PingOutcome::Failed));
    assert!(!BrowserInstance::health_ping(PingOutcome::TimedOut));
}

#[test]
fn lost_connections_are_told_by_their_message() {
    let error = |m: &str| HandlerEvent::Error(m.to_string());
    assert!(connection_lost(&error("peer closed connection early")));
    assert!(connection_lost(&error("WebSocket protocol error")));
    assert!(!connection_lost(&error("websocket")));
    assert!(!connection_lost(&error("")));
    assert!(!connection_lost(&HandlerEvent::Message));
    assert!(connection_lost(&HandlerEvent::Ended));
}

#[test]
fn browsers_are_launched_headless() {
    let args = launch_args();
    assert_eq!(args.len(), 15);
    assert_eq!(args[0], "--disable-setuid-sandbox");
    assert_eq!(args[11], "--headless");
    assert_eq!(args[14], "--js-flags=--max-old-space-size=512");
}

#[test]
fn each_browser_has_a_directory_of_its_own() {
    assert_eq!(
        user_data_dir_name(1700000000123, "ThreadId(42)"),
        "chrome-rust-pdf-1700000000123-42"
    );
    assert_eq!(user_data_dir_name(0, "a1b\u{663}c"), "chrome-rust-pdf-0-1\u{663}");
    assert_eq!(user_data_dir_name(0, "none"), "chrome-rust-pdf-0-");
}

fn ran(resolved: &str, outcome: RunOutcome) -> ProbeInput {
    ProbeInput::Ran { resolved: resolved.to_string(), outcome }
}

#[test]
fn a_path_that_does_not_exist_is_reported() {
    match validate_chrome_path("/x", ProbeInput::Looked(PathLookup::Missing)) {
        ProbeAction::Invalid(e) => {
            assert_eq!(e.message(), "Chrome binary not found at path: /x")
        }
        other => panic!("{:?}", other),
    }
}

#[test]
fn a_path_is_followed_and_run() {
    let input = ProbeInput::Looked(PathLookup::Resolved("/y".to_string()));
    assert!(
        matches!(validate_chrome_path("/x", input), ProbeAction::Run { ref resolved } if resolved == "/y")
    );
    let input = ProbeInput::Looked(PathLookup::Unresolved);
    assert!(
        matches!(validate_chrome_path("/x", input), ProbeAction::Run { ref resolved } if resolved == "/x")
    );
    assert!(
        matches!(validate_chrome_path("/x", ran("/y", RunOutcome::Success)), ProbeAction::Valid(ref p) if p == "/y")
    );
}

#[test]
fn a_run_that_fails_is_reported_with_the_given_path() {
    match validate_chrome_path("/x", ran("/y", RunOutcome::Failure)) {
        ProbeAction::Invalid(e) => assert_eq!(e.message(), "Chrome binary is not executable: /x"),
        other => panic!("{:?}", other),
    }
}

#[test]
fn a_run_that_cannot_start_is_tried_once_more_with_the_given_path() {
    let not_started = || RunOutcome::NotStarted("denied".to_string());
    assert!(
        matches!(validate_chrome_path("/x", ran("/y", not_started())), ProbeAction::RunOriginal { ref error } if error == "denied")
    );
    let message = "Chrome binary validation failed: /x, error: denied";
    match validate_chrome_path("/x", ran("/x", not_started())) {
        ProbeAction::Invalid(e) => assert_eq!(e.message(), message),
        other => panic!("{:?}", other),
    }
    let again = |success: bool| ProbeInput::RanOriginal { error: "denied".to_string(), success };
    assert!(
        matches!(validate_chrome_path("/x", again(true)), ProbeAction::Valid(ref p) if p == "/x")
    );
    match validate_chrome_path("/x", again(false)) {
        ProbeAction::Invalid(e) => assert_eq!(e.message(), message),
        other => panic!("{:?}", other),
    }
}

/// Runs a search in which no path is valid; gives the paths that were validated, the commands that
/// were looked up, and the paths that were reported.
fn exhaust(
    provided: Option<&str>,
    found: fn(&str) -> Option<&'static str>,
) -> (Vec<String>, Vec<String>, Vec<String>) {
    let mut search = ChromeSearch::new();
    let (mut validated, mut commands) = (vec![], vec![]);
    let mut input = SearchInput::Begin(provided.map(|p| p.to_string()));
    loop {
        input = match find_chrome_executable(&mut search, input) {
            SearchAction::Validate(path) => {
                validated.push(path.clone());
                SearchInput::Validated(Err(ChromePathError::NotFound { path }))
            }
            SearchAction::LookUp(name) => {
                let output = found(&name).map(|o| o.to_string());
                commands.push(name);
                SearchInput::LookedUp(output)
            }
            SearchAction::NotFound(ChromePathError::NoValidInstallation { paths }) => {
                return (validated, commands, paths)
            }
            other => panic!("{:?}", other),
        };
    }
}

const FALLBACKS: [&str; 8] = [
    "/usr/bin/google-chrome-stable",
    "/usr/bin/google-chrome",
    "/usr/bin/chromium-browser",
    "/usr/bin/chromium",
    "/opt/google/chrome/chrome",
    "/Applications/Google Chrome.app/Contents/MacOS/Google Chrome",
    "C:\\Program Files\\Google\\Chrome\\Application\\chrome.exe",
    "C:\\Program Files (x86)\\Google\\Chrome\\Application\\chrome.exe",
];

#[test]
fn a_search_that_finds_nothing_has_tried_everything() {
    let (validated, commands, reported) = exhaust(None, |_| None);
    assert_eq!(validated, FALLBACKS);
    assert_eq!(commands, ["google-chrome-stable", "chromium", "chromium-browser", "google-chrome"]);
    assert_eq!(reported, validated);
}

#[test]
fn a_search_tries_no_path_twice_but_what_its_first_command_gives() {
    let (validated, _, reported) = exhaust(Some("/usr/bin/chromium"), |name| match name {
        "google-chrome-stable" => Some(" /usr/bin/chromium\n"),
        "chromium" => Some("/usr/bin/chromium"),
        "chromium-browser" => Some("  \n"),
        _ => Some("/snap/chrome\n"),
    });
    assert_eq!(reported, validated);
    assert_eq!(validated[..3], ["/usr/bin/chromium", "/usr/bin/chromium", "/snap/chrome"]);
    assert_eq!(validated.len(), 3 + 7);
    assert!(!validated[3..].contains(&"/usr/bin/chromium".to_string()));
}

#[test]
fn a_search_ends_with_the_first_valid_path() {
    let mut search = ChromeSearch::new();
    let action = find_chrome_executable(&mut search, SearchInput::Begin(Some("/x".to_string())));
    assert!(matches!(action, SearchAction::Validate(ref p) if p == "/x"));
    let action =
        find_chrome_executable(&mut search, SearchInput::Validated(Ok("/real/x".to_string())));
    assert!(matches!(action, SearchAction::Found(ref p) if p == "/real/x"));
}

#[test]
fn a_search_takes_its_candidates_in_order() {
    let mut search = ChromeSearch::new();
    let mut validated = vec![];
    let mut input = SearchInput::Begin(Some("/provided".to_string()));
    let found = loop {
        input = match find_chrome_executable(&mut search, input) {
            SearchAction::Validate(path) => {
                validated.push(path.clone());
                SearchInput::Validated(if path == "/usr/bin/google-chrome" {
                    Ok("/opt/real".to_string())
                } else {
                    Err(ChromePathError::NotExecutable { path })
                })
            }
            SearchAction::LookUp(name) => SearchInput::LookedUp(if name == "chromium" {
                Some("/snap/chromium\n".to_string())
            } else {
                None
            }),
            SearchAction::Found(path) => break path,
            other => panic!("{:?}", other),
        };
    };
    assert_eq!(found, "/opt/real");
    assert_eq!(
        validated,
        ["/provided", "/snap/chromium", "/usr/bin/google-chrome-stable", "/usr/bin/google-chrome"]
    );
}

/// Runs a whole validation; gives its result and how many runs it asked for.
fn validation(
    path: &str,
    lookup: PathLookup,
    first: RunOutcome,
    second: bool,
) -> (Result<String, String>, usize) {
    let mut first = Some(first);
    let mut runs = 0;
    let mut input = ProbeInput::Looked(lookup);
    loop {
        input = match validate_chrome_path(path, input) {
            ProbeAction::Run { resolved } => {
                runs += 1;
                ProbeInput::Ran { resolved, outcome: first.take().unwrap() }
            }
            ProbeAction::RunOriginal { error } => {
                runs += 1;
                ProbeInput::RanOriginal { error, success: second }
            }
            ProbeAction::Valid(path) => return (Ok(path), runs),
            ProbeAction::Invalid(e) => return (Err(e.message()), runs),
        };
    }
}

#[test]
fn a_whole_validation_makes_two_runs_at_most() {
    let to_y = || PathLookup::Resolved("/y".to_string());
    let stuck = || RunOutcome::NotStarted("no".to_string());
    let failed = || Err("Chrome binary validation failed: /x, error: no".to_string());
    assert_eq!(
        validation("/x", PathLookup::Missing, RunOutcome::Success, true),
        (Err("Chrome binary not found at path: /x".to_string()), 0)
    );
    assert_eq!(validation("/x", to_y(), RunOutcome::Success, false), (Ok("/y".to_string()), 1));
    assert_eq!(
        validation("/x", to_y(), RunOutcome::Failure, true),
        (Err("Chrome binary is not executable: /x".to_string()), 1)
    );
    assert_eq!(validation("/x", to_y(), stuck(), true), (Ok("/x".to_string()), 2));
    assert_eq!(validation("/x", to_y(), stuck(), false), (failed(), 2));
    assert_eq!(validation("/x", PathLookup::Unresolved, stuck(), true), (failed(), 1));
}
