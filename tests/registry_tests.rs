use aria_download_manager::intake::{Info, JobIntake};
use aria_download_manager::registry::SessionRegistry;
use aria_download_manager::session::{CreateError, Phase, SessionRequest};
use aria_download_manager::settings::Settings;
use aria_download_manager::status::{JobFile, JobStatus};

fn active(gid: &str, uri: &str) -> JobStatus {
    JobStatus {
        gid: gid.to_string(),
        total_length: 100,
        completed_length: 1,
        verified_length: None,
        download_speed: 10,
        connections: 4,
        num_pieces: 1,
        piece_length: 100,
        error_code: None,
        error_message: None,
        dir: "/downloads".to_string(),
        files: vec![JobFile { path: "/downloads/x".to_string(), uris: vec![uri.to_string()] }],
    }
}

#[test]
fn create_names_session_after_url() {
    let mut reg = SessionRegistry::new();
    let uid = reg
        .create(Info::with_download_url("https://example.com/files/report.pdf".to_string()))
        .unwrap();
    assert_eq!(reg.len(), 1);
    let s = reg.get(&uid).unwrap();
    assert_eq!(s.get_name(), "report.pdf");
    assert_eq!(s.get_phase(), Phase::Created);
}

#[test]
fn create_refuses_malformed_url() {
    let mut reg = SessionRegistry::new();
    reg.create(Info::with_download_url("https://example.com/a.bin".to_string())).unwrap();
    let r = reg.create(Info::with_download_url("not-a-url".to_string()));
    assert_eq!(r, Err(CreateError::InvalidUrl));
    assert_eq!(reg.len(), 1);
}

#[test]
fn create_refuses_empty_url() {
    let mut reg = SessionRegistry::new();
    let r = reg.create(Info::with_download_url("   ".to_string()));
    assert_eq!(r, Err(CreateError::EmptyUrl));
    assert_eq!(reg.len(), 0);
}

#[test]
fn create_trims_url_and_keeps_request_details() {
    let mut reg = SessionRegistry::new();
    let mut info = Info::with_download_url("  https://example.com/b/c.zip \n".to_string());
    info.webpage_url = "https://example.com/b".to_string();
    info.download_referer = "https://example.com/".to_string();
    let uid = reg.create(info).unwrap();
    let s = reg.get(&uid).unwrap();
    assert_eq!(s.get_url(), "https://example.com/b/c.zip");
    assert_eq!(s.get_webpage(), "https://example.com/b");
    assert_eq!(s.get_referer(), "https://example.com/");
}

#[test]
fn settings_change_affects_only_later_jobs() {
    let mut reg = SessionRegistry::new();
    let mut settings = Settings::default();
    settings.split_num = 16;
    let a = reg.create(Info::with_download_url("https://example.com/a.bin".to_string())).unwrap();
    let ra = reg.start(&a, &settings, "/d");
    assert!(reg.start_handler(&a, "aaaaaaaaaaaaaaaa".to_string()));
    settings.split_num = 4;
    let b = reg.create(Info::with_download_url("https://example.com/b.bin".to_string())).unwrap();
    let rb = reg.start(&b, &settings, "/d");
    match (ra, rb) {
        (SessionRequest::AddUri { options: oa, .. }, SessionRequest::AddUri { options: ob, .. }) => {
            assert_eq!(oa.split, 16);
            assert_eq!(ob.split, 4);
        }
        _ => panic!("expected two add requests"),
    }
    assert!(matches!(reg.start(&a, &settings, "/d"), SessionRequest::Nothing));
}

#[test]
fn add_failure_marks_session_errored() {
    let mut reg = SessionRegistry::new();
    let uid = reg.create(Info::with_download_url("https://example.com/a.bin".to_string())).unwrap();
    reg.start(&uid, &Settings::default(), "/d");
    reg.start_failed(&uid, "insufficient disk space".to_string());
    let s = reg.get(&uid).unwrap();
    assert_eq!(s.get_phase(), Phase::Errored);
    assert!(s.get_last_error().contains("insufficient disk space"));
}

#[test]
fn reconcile_adds_unknown_jobs_once() {
    let mut reg = SessionRegistry::new();
    let mut bare = active("4444444444444444", "");
    bare.files = vec![];
    let jobs = vec![
        active("1111111111111111", "https://example.com/one.iso"),
        active("2222222222222222", "https://example.com/two.iso"),
        active("1111111111111111", "https://example.com/one.iso"),
        active("3333333333333333", "not-a-url"),
        bare,
        active("", "https://example.com/none.iso"),
    ];
    assert_eq!(reg.reconcile(&jobs), 4);
    assert_eq!(reg.len(), 4);
    assert_eq!(reg.reconcile(&jobs), 0);
    assert_eq!(reg.len(), 4);
    let s = reg.get("1111111111111111").unwrap();
    assert_eq!(s.get_gid(), "1111111111111111");
    assert_eq!(s.get_phase(), Phase::Starting);
    assert_eq!(s.get_name(), "one.iso");
    assert_eq!(reg.get("3333333333333333").unwrap().get_url(), "not-a-url");
    assert_eq!(reg.get("4444444444444444").unwrap().get_url(), "");
}

#[test]
fn reconcile_avoids_taken_local_identity() {
    let mut reg = SessionRegistry::new();
    reg.reconcile(&vec![active("5555555555555555", "https://example.com/a.iso")]);
    assert!(reg.start_handler("5555555555555555", "6666666666666666".to_string()));
    assert_eq!(reg.reconcile(&vec![active("5555555555555555", "https://example.com/a.iso")]), 1);
    assert_eq!(reg.len(), 2);
    assert_eq!(reg.get("5555555555555555-").unwrap().get_gid(), "5555555555555555");
    assert_eq!(reg.get("5555555555555555").unwrap().get_gid(), "6666666666666666");
}

#[test]
fn new_session_creates_and_starts() {
    let mut reg = SessionRegistry::new();
    let mut settings = Settings::default();
    settings.split_num = 4;
    let (uid, req) = reg
        .new_session(Info::with_download_url(" https://example.com/c.zip".to_string()), &settings, "/d")
        .unwrap();
    assert_eq!(reg.get(&uid).unwrap().get_phase(), Phase::Starting);
    match req {
        SessionRequest::AddUri { uri, options } => {
            assert_eq!(uri, "https://example.com/c.zip");
            assert_eq!(options.split, 4);
        }
        _ => panic!("expected an add request"),
    }
    let r = reg.new_session(Info::with_download_url("not-a-url".to_string()), &settings, "/d");
    assert!(matches!(r, Err(CreateError::InvalidUrl)));
    let r = reg.new_session(Info::with_download_url(" \t\n".to_string()), &settings, "/d");
    assert!(matches!(r, Err(CreateError::EmptyUrl)));
    assert_eq!(reg.len(), 1);
}

#[test]
fn reconcile_and_create_racing_keep_one_session_per_job() {
    let mut reg = SessionRegistry::new();
    let uid = reg.create(Info::with_download_url("https://example.com/a.bin".to_string())).unwrap();
    reg.start(&uid, &Settings::default(), "/d");
    assert_eq!(reg.reconcile(&vec![active("abcdabcdabcdabcd", "https://example.com/a.bin")]), 1);
    assert_eq!(reg.len(), 2);
    assert!(!reg.start_handler(&uid, "abcdabcdabcdabcd".to_string()));
    assert_eq!(reg.len(), 1);
    let holders = reg.list().iter().filter(|s| s.get_gid() == "abcdabcdabcdabcd").count();
    assert_eq!(holders, 1);
}

#[test]
fn registry_remove_detaches() {
    let mut reg = SessionRegistry::new();
    let uid = reg.create(Info::with_download_url("https://example.com/a.bin".to_string())).unwrap();
    reg.start(&uid, &Settings::default(), "/d");
    reg.start_handler(&uid, "abcdabcdabcdabcd".to_string());
    let r = reg.remove(&uid);
    assert!(matches!(r, SessionRequest::Remove { ref gid } if gid == "abcdabcdabcdabcd"));
    assert_eq!(reg.len(), 0);
    assert!(matches!(reg.remove(&uid), SessionRequest::Nothing));
}

#[test]
fn remove_all_marks_every_session() {
    let mut reg = SessionRegistry::new();
    let a = reg.create(Info::with_download_url("https://example.com/a.bin".to_string())).unwrap();
    reg.create(Info::with_download_url("https://example.com/b.bin".to_string())).unwrap();
    reg.start(&a, &Settings::default(), "/d");
    reg.start_handler(&a, "abcdabcdabcdabcd".to_string());
    let reqs = reg.remove_all();
    assert_eq!(reqs.len(), 2);
    assert_eq!(reqs.iter().filter(|r| matches!(r, SessionRequest::Remove { .. })).count(), 1);
    assert!(reg.list().iter().all(|s| s.get_phase() == Phase::Removed));
}

#[test]
fn status_reports_go_to_their_session() {
    let mut reg = SessionRegistry::new();
    let uid = reg.create(Info::with_download_url("https://example.com/a.bin".to_string())).unwrap();
    reg.start(&uid, &Settings::default(), "/d");
    reg.start_handler(&uid, "abcdabcdabcdabcd".to_string());
    assert!(matches!(reg.update_status(&uid, 1000), SessionRequest::TellStatus { .. }));
    reg.update_status_handler(&uid, active("abcdabcdabcdabcd", "https://example.com/a.bin"));
    let s = reg.get(&uid).unwrap();
    assert_eq!(s.get_phase(), Phase::Running);
    assert_eq!(s.get_connections_num(), 4);
    reg.pause(&uid);
    assert_eq!(reg.get(&uid).unwrap().get_phase(), Phase::Paused);
    reg.unpause(&uid);
    assert_eq!(reg.get(&uid).unwrap().get_phase(), Phase::Running);
}

#[test]
fn intake_hands_out_requests_once() {
    let mut inbox = JobIntake::new();
    inbox.add_wait_to_start(Info::with_download_url("https://example.com/a".to_string()));
    inbox.add_wait_to_start(Info::with_download_url("https://example.com/b".to_string()));
    inbox.set_quit_request(true);
    let taken = inbox.take_wait_to_start();
    assert_eq!(taken.len(), 2);
    assert_eq!(taken[0].download_url, "https://example.com/a");
    assert!(inbox.take_wait_to_start().is_empty());
    assert!(inbox.get_quit_request());
    assert!(!inbox.get_focus_request());
    inbox.set_focus_request(true);
    assert!(inbox.get_focus_request());
}
