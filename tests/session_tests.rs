use aria_download_manager::intake::Cookie;
use aria_download_manager::session::{
    display_from, speed_unit_of, unit_divisor_of, unit_suffix_of, CreateError, Phase, Session,
    SessionRequest, SpeedLine,
};
use aria_download_manager::settings::Settings;
use aria_download_manager::status::{JobFile, JobStatus};

fn status(total: u64, completed: u64) -> JobStatus {
    JobStatus {
        gid: "2089b05ecca3d829".to_string(),
        total_length: total,
        completed_length: completed,
        verified_length: None,
        download_speed: 0,
        connections: 0,
        num_pieces: 0,
        piece_length: 0,
        error_code: None,
        error_message: None,
        dir: "/downloads".to_string(),
        files: vec![],
    }
}

fn cookie(name: &str, value: &str) -> Cookie {
    Cookie {
        domain: "example.com".to_string(),
        host_only: true,
        http_only: false,
        name: name.to_string(),
        path: "/".to_string(),
        same_site: "lax".to_string(),
        secure: true,
        session: false,
        store_id: "0".to_string(),
        value: value.to_string(),
    }
}

fn bound_session(url: &str) -> Session {
    let mut s = Session::new(url.to_string()).unwrap();
    let r = s.start(&Settings::default(), "/Users/me/Downloads");
    assert!(matches!(r, SessionRequest::AddUri { .. }));
    s.start_handler("2089b05ecca3d829".to_string());
    s
}

/// The speed line as the window renders it: the mantissa in floating point.
fn shown(line: SpeedLine) -> String {
    match line {
        SpeedLine::Completed => "Completed!".to_string(),
        SpeedLine::Verifying => "Verifying...".to_string(),
        SpeedLine::Rate { speed, unit } => {
            format!("{}{}", speed as f32 / unit_divisor_of(unit) as f32, unit_suffix_of(unit))
        }
        SpeedLine::Stopped => "0.0B/s".to_string(),
    }
}

fn rate(speed: u64) -> String {
    shown(SpeedLine::Rate { speed, unit: speed_unit_of(speed) })
}

#[test]
fn speed_1536_is_one_and_a_half_kilobytes() {
    assert_eq!(speed_unit_of(1536), 1);
    assert_eq!(rate(1536), "1.5KB/s");
}

#[test]
fn speed_units_and_boundaries() {
    assert_eq!(rate(0), "0B/s");
    assert_eq!(rate(1024), "1024B/s");
    assert_eq!(rate(1025), "1.0009766KB/s");
    assert_eq!(rate(2048), "2KB/s");
    assert_eq!(speed_unit_of(1048576), 1);
    assert_eq!(speed_unit_of(1048577), 2);
    assert_eq!(rate(3 * 1073741824 + 536870912), "3.5GB/s");
    assert_eq!(rate(1099511627776 * 2), "2TB/s");
    assert_eq!(speed_unit_of(u64::MAX), 4);
    assert_eq!(unit_suffix_of(4), "TB/s");
}

#[test]
fn speed_line_before_start_is_zero() {
    let s = Session::new("https://example.com/a.bin".to_string()).unwrap();
    assert_eq!(shown(s.get_speed_line()), "0.0B/s");
}

#[test]
fn speed_line_while_running() {
    let mut s = bound_session("https://example.com/a.bin");
    let mut st = status(10000, 10);
    st.download_speed = 1536;
    s.update_status_handler(st);
    assert_eq!(s.get_phase(), Phase::Running);
    assert_eq!(shown(s.get_speed_line()), "1.5KB/s");
    s.pause();
    assert_eq!(shown(s.get_speed_line()), "0.0B/s");
}

#[test]
fn speed_line_completed_and_verifying() {
    let mut s = bound_session("https://example.com/a.bin");
    let mut st = status(100, 50);
    st.verified_length = Some(30);
    s.update_status_handler(st);
    assert_eq!(s.get_phase(), Phase::Verifying);
    assert_eq!(shown(s.get_speed_line()), "Verifying...");
    s.update_status_handler(status(100, 100));
    assert_eq!(s.get_phase(), Phase::Completed);
    assert_eq!(shown(s.get_speed_line()), "Completed!");
}

#[test]
fn name_from_url_before_any_status() {
    let s = Session::new("https://example.com/files/report.pdf".to_string()).unwrap();
    assert_eq!(s.get_name(), "report.pdf");
    assert_eq!(s.get_phase(), Phase::Created);
    assert_eq!(s.get_gid(), "");
    assert_eq!(s.get_uid().len(), 36);
}

#[test]
fn malformed_url_is_refused() {
    assert!(matches!(Session::new("not-a-url".to_string()), Err(CreateError::InvalidUrl)));
    assert!(matches!(Session::new("mailto:someone@example.com".to_string()), Err(CreateError::InvalidUrl)));
}

#[test]
fn name_from_reported_files() {
    let mut s = bound_session("https://example.com/files/report.pdf");
    let mut st = status(100, 10);
    st.files = vec![
        JobFile { path: "/downloads/a/first.iso".to_string(), uris: vec![] },
        JobFile { path: "".to_string(), uris: vec![] },
        JobFile { path: "/downloads/second.txt".to_string(), uris: vec![] },
    ];
    s.update_status_handler(st);
    assert_eq!(s.get_name(), "first.iso, second.txt");
    assert_eq!(s.get_file(), "/downloads/a/first.iso");
}

#[test]
fn progress_is_zero_when_total_is_zero() {
    let mut s = bound_session("https://example.com/a.bin");
    s.update_status_handler(status(0, 0));
    let (done, of) = s.get_process_parts();
    assert_eq!((done, of), (0, 1));
    assert_eq!(done as f32 / of as f32, 0.0);
}

#[test]
fn progress_fraction_reported() {
    let mut s = bound_session("https://example.com/a.bin");
    s.update_status_handler(status(200, 50));
    assert_eq!(s.get_process_parts(), (50, 200));
}

#[test]
fn completed_only_with_nonzero_equal_lengths() {
    let mut s = bound_session("https://example.com/a.bin");
    s.update_status_handler(status(0, 0));
    assert!(!s.is_completed());
    assert_ne!(s.get_phase(), Phase::Completed);
    s.update_status_handler(status(10, 9));
    assert!(!s.is_completed());
    s.update_status_handler(status(10, 10));
    assert!(s.is_completed());
    assert_eq!(s.get_phase(), Phase::Completed);
}

#[test]
fn error_flag_compares_against_zero_code() {
    let mut s = bound_session("https://example.com/a.bin");
    let mut st = status(10, 1);
    st.error_code = Some("0".to_string());
    st.error_message = Some("boom".to_string());
    s.update_status_handler(st);
    assert!(s.is_error());
    assert_eq!(s.get_phase(), Phase::Errored);
    assert_eq!(s.get_error_code(), "0");
    assert_eq!(s.get_error_msg(), "boom");
    let mut t = bound_session("https://example.com/b.bin");
    let mut st = status(10, 1);
    st.error_code = Some("3".to_string());
    t.update_status_handler(st);
    assert!(!t.is_error());
}

#[test]
fn remove_twice_stays_removed() {
    let mut s = bound_session("https://example.com/a.bin");
    let r1 = s.remove();
    assert!(matches!(r1, SessionRequest::Remove { ref gid } if gid == "2089b05ecca3d829"));
    assert_eq!(s.get_phase(), Phase::Removed);
    assert!(!s.running);
    let r2 = s.remove();
    assert!(matches!(r2, SessionRequest::Nothing));
    assert_eq!(s.get_phase(), Phase::Removed);
    assert!(!s.running);
    assert!(matches!(s.get_speed_line(), SpeedLine::Stopped));
}

#[test]
fn pause_and_resume() {
    let mut s = bound_session("https://example.com/a.bin");
    assert!(matches!(s.pause(), SessionRequest::Nothing));
    s.update_status_handler(status(100, 1));
    assert_eq!(s.get_phase(), Phase::Running);
    assert!(matches!(s.pause(), SessionRequest::Pause { .. }));
    assert_eq!(s.get_phase(), Phase::Paused);
    assert!(matches!(s.unpause(), SessionRequest::Unpause { .. }));
    assert_eq!(s.get_phase(), Phase::Running);
    assert!(matches!(s.start(&Settings::default(), "/d"), SessionRequest::Nothing));
}

#[test]
fn start_failure_keeps_daemon_text() {
    let mut s = Session::new("https://example.com/a.bin".to_string()).unwrap();
    s.start(&Settings::default(), "/d");
    assert_eq!(s.get_phase(), Phase::Starting);
    s.start_failed("insufficient disk space".to_string());
    assert_eq!(s.get_phase(), Phase::Errored);
    assert!(s.get_last_error().contains("insufficient disk space"));
}

#[test]
fn polls_are_throttled() {
    let mut s = bound_session("https://example.com/a.bin");
    assert!(matches!(s.update_status(50), SessionRequest::Nothing));
    assert!(matches!(s.update_status(101), SessionRequest::TellStatus { .. }));
    assert!(matches!(s.update_status(500), SessionRequest::Nothing));
    s.update_status_failed("timeout".to_string());
    assert_eq!(s.get_last_error(), "timeout");
    assert!(matches!(s.update_status(150), SessionRequest::Nothing));
    assert!(matches!(s.update_status(202), SessionRequest::TellStatus { .. }));
}

#[test]
fn unbound_session_does_not_poll() {
    let mut s = Session::new("https://example.com/a.bin".to_string()).unwrap();
    assert!(matches!(s.update_status(10_000), SessionRequest::Nothing));
}

#[test]
fn cookie_header_joins_pairs() {
    let mut s = Session::new("https://example.com/a.bin".to_string()).unwrap();
    assert_eq!(s.get_cookie(), "");
    s.set_cookie(vec![cookie("a", "1"), cookie("b", "2")]);
    assert_eq!(s.get_cookie(), "a=1; b=2");
    assert_eq!(cookie("sid", "xyz").to_string(), "sid=xyz");
}

#[test]
fn start_options_follow_settings() {
    let mut s = Session::new("https://example.com/a.bin".to_string()).unwrap();
    s.set_cookie(vec![cookie("a", "1")]);
    let mut settings = Settings::default();
    settings.proxy = "http://proxy:3128".to_string();
    match s.start(&settings, "/Users/me/Downloads") {
        SessionRequest::AddUri { uri, options } => {
            assert_eq!(uri, "https://example.com/a.bin");
            assert_eq!(options.split, 16);
            assert_eq!(options.all_proxy, Some("http://proxy:3128".to_string()));
            assert_eq!(options.header[0], "Cookie: a=1");
            assert_eq!(options.header[1], format!("User-Agent: {}", settings.user_agent));
            assert_eq!(options.dir, "/Users/me/Downloads");
        }
        _ => panic!("expected an add request"),
    }
}

#[test]
fn notice_names_the_session() {
    let s = Session::new("https://example.com/files/report.pdf".to_string()).unwrap();
    assert_eq!(s.notice("Pause"), "Pause `report.pdf`");
}

#[test]
fn shown_name_prefers_files_then_url_name() {
    let url = "https://example.com/".to_string();
    assert_eq!(display_from(&vec![], &"a.bin".to_string(), &url), "a.bin");
    assert_eq!(display_from(&vec![], &String::new(), &url), "https://example.com/");
    assert_eq!(
        display_from(&vec!["x".to_string(), "y".to_string()], &"a.bin".to_string(), &url),
        "x, y"
    );
}

#[test]
fn session_from_missing_name_is_invalid() {
    let r = Session::from_name("https://x/".to_string(), None, "id".to_string());
    assert!(matches!(r, Err(CreateError::InvalidUrl)));
    let s = Session::from_name("https://x/y".to_string(), Some("y".to_string()), "id".to_string()).unwrap();
    assert_eq!(s.get_uid(), "id");
    assert_eq!(s.get_name(), "y");
}

#[test]
fn connection_count_is_held_in_range() {
    let mut s = Settings::default();
    s.set_split_num(0);
    assert_eq!(s.split_num, 1);
    s.set_split_num(100);
    assert_eq!(s.split_num, 64);
    s.set_split_num(8);
    assert_eq!(s.split_num, 8);
}
