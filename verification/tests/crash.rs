use cordial::crash::{describe, details, is_crash, Exit};

fn exited(code: i32) -> Exit {
    Exit { success: code == 0, code: Some(code), shown: format!("exit status: {code}") }
}

fn signalled(shown: &str) -> Exit {
    Exit { success: false, code: None, shown: shown.to_string() }
}

#[test]
fn a_clean_exit_is_not_a_crash() {
    assert!(!is_crash(&exited(0), ""));
}

#[test]
fn a_failing_exit_code_is_a_crash() {
    let status = exited(1);
    assert!(is_crash(&status, ""));
    assert!(describe(&status).contains("exit code 1"), "{}", describe(&status));
}

#[test]
fn a_signal_death_is_a_crash_and_is_not_described_as_an_exit_code() {
    let status = signalled("signal: 11 (SIGSEGV)");
    assert!(is_crash(&status, ""));
    let line = describe(&status);
    assert!(!line.contains("exit code"), "{line}");
    assert!(line.contains("stopped by the system"), "{line}");
}

#[test]
fn an_x11_connection_loss_is_not_an_engine_crash() {
    let status = exited(1);
    assert!(!is_crash(&status, "XIO:  fatal IO error 0 (Success) on X server \":1\""));
}

#[test]
fn an_x11_connection_break_is_not_an_engine_crash() {
    let status = exited(1);
    assert!(!is_crash(&status, "X connection to :1 broken (explicit kill or server shutdown)."));
}

#[test]
fn a_signal_with_an_x11_line_is_still_a_crash() {
    let status = signalled("signal: 11 (SIGSEGV)");
    assert!(is_crash(&status, "X connection to :1 broken (explicit kill or server shutdown)."));
}

#[test]
fn half_an_x11_marker_is_still_a_crash() {
    assert!(is_crash(&exited(1), "XIO: something else"));
    assert!(is_crash(&exited(1), "fatal IO error"));
    assert!(is_crash(&exited(1), "X connection to :1 lost"));
    assert!(!is_crash(&exited(1), "loader output\nXIO: client 3 fatal IO error 11\nmore"));
    assert!(!is_crash(&exited(0), "XIO: fatal IO error"));
}

#[test]
fn the_description_is_one_exact_sentence() {
    assert_eq!(describe(&exited(1)), "Roblox stopped on its own, with exit code 1.");
    assert_eq!(describe(&exited(-6)), "Roblox stopped on its own, with exit code -6.");
    assert_eq!(describe(&exited(255)), "Roblox stopped on its own, with exit code 255.");
    assert_eq!(describe(&exited(i32::MIN)), "Roblox stopped on its own, with exit code -2147483648.");
    assert_eq!(
        describe(&signalled("signal: 6 (SIGABRT) (core dumped)")),
        "Roblox was stopped by the system (signal: 6 (SIGABRT) (core dumped))."
    );
}

#[test]
fn the_details_say_when_nothing_was_printed() {
    assert_eq!(
        details(" \n\t ", "cordial-run --run 30"),
        "Roblox printed nothing before it stopped.\n\nIt was started with:\ncordial-run --run 30"
    );
    assert_eq!(
        details("panic at engine.cpp", "cordial-run"),
        "panic at engine.cpp\n\nIt was started with:\ncordial-run"
    );
    assert_eq!(
        details("", "x"),
        "Roblox printed nothing before it stopped.\n\nIt was started with:\nx"
    );
}

#[test]
fn only_the_platform_success_verdict_is_clean() {
    // A raw status the platform does not call a success is a crash even when
    // its exit-code bits read 0.
    let odd = Exit { success: false, code: Some(0), shown: "exit status: 0".to_string() };
    assert!(is_crash(&odd, ""));
    assert!(!is_crash(&odd, "X connection to :1 broken (explicit kill or server shutdown)."));
}
