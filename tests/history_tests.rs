use aria_download_manager::history::{get_history_path, history_path_in, History, HistorySession};
use aria_download_manager::session::Session;
use aria_download_manager::settings::{
    app_support_path, download_dir, get_app_support_path, get_save_path, download_dir_for, get_options, join_path, save_path_in,
    theme_change, Settings, DEFAULT_USER_AGENT,
};
use aria_download_manager::text::{join_strings, push_decimal, push_signed_decimal};

fn record(url: &str, time: (i32, u32, u32, u32, u32, u32)) -> HistorySession {
    HistorySession {
        url: url.to_string(),
        webpage: String::new(),
        file: String::new(),
        name: "n".to_string(),
        time,
    }
}

#[test]
fn recording_twice_writes_once() {
    let mut h = History::new();
    let s = Session::new("https://example.com/files/report.pdf".to_string()).unwrap();
    assert!(h.add_session(&s));
    for _ in 0..5 {
        assert!(!h.add_session(&s));
    }
    assert_eq!(h.len(), 1);
    let list = h.get_sessions();
    assert_eq!(list[0].0, s.get_uid());
    assert_eq!(list[0].1.get_name(), "report.pdf");
    assert_eq!(list[0].1.get_url(), "https://example.com/files/report.pdf");
}

#[test]
fn recording_a_changed_session_writes_again() {
    let mut h = History::new();
    let mut s = Session::new("https://example.com/files/report.pdf".to_string()).unwrap();
    assert!(h.add_session(&s));
    s.name = "other.pdf".to_string();
    assert!(h.add_session(&s));
    assert_eq!(h.len(), 1);
    assert_eq!(h.get_sessions()[0].1.get_name(), "other.pdf");
}

#[test]
fn listing_is_newest_first() {
    let mut h = History::new();
    h.put("a".to_string(), record("u1", (2024, 1, 2, 3, 4, 5)));
    h.put("b".to_string(), record("u2", (2024, 1, 2, 3, 4, 6)));
    h.put("c".to_string(), record("u3", (2023, 12, 31, 23, 59, 59)));
    h.put("d".to_string(), record("u4", (2025, 1, 1, 0, 0, 0)));
    let keys: Vec<String> = h.get_sessions().into_iter().map(|(k, _)| k).collect();
    assert_eq!(keys, vec!["d", "b", "a", "c"]);
}

#[test]
fn equal_times_list_by_url_file_and_name_last_first() {
    let mut h = History::new();
    let t = (2024, 1, 2, 3, 4, 5);
    h.put("a".to_string(), record("https://a", t));
    h.put("c".to_string(), record("https://c", t));
    h.put("b".to_string(), record("https://b", t));
    let mut d = record("https://b", t);
    d.file = "z".to_string();
    h.put("d".to_string(), d);
    let keys: Vec<String> = h.get_sessions().into_iter().map(|(k, _)| k).collect();
    assert_eq!(keys, vec!["c", "d", "b", "a"]);
}

#[test]
fn a_changed_web_page_is_written() {
    let mut h = History::new();
    let mut s = Session::new("https://example.com/files/report.pdf".to_string()).unwrap();
    assert!(h.add_session(&s));
    s.set_webpage("https://example.com/files".to_string());
    assert!(h.add_session(&s));
    assert_eq!(h.get_sessions()[0].1.get_webpage(), "https://example.com/files");
    assert!(!h.add_session(&s));
}

#[test]
fn removing_a_record() {
    let mut h = History::new();
    h.put("a".to_string(), record("u1", (2024, 1, 2, 3, 4, 5)));
    assert!(h.remove(&"a".to_string()));
    assert!(!h.remove(&"a".to_string()));
    assert_eq!(h.len(), 0);
}

#[test]
fn record_time_text() {
    assert_eq!(record("u", (2024, 3, 7, 9, 5, 0)).get_time(), "2024-3-7 9:5:0");
    assert_eq!(record("u", (-44, 3, 15, 12, 0, 0)).get_time(), "-44-3-15 12:0:0");
}

#[test]
fn records_compare_without_time() {
    assert!(record("u", (2024, 1, 1, 0, 0, 0)) == record("u", (2020, 5, 5, 5, 5, 5)));
    assert!(record("u", (2024, 1, 1, 0, 0, 0)) != record("v", (2024, 1, 1, 0, 0, 0)));
    let mut w = record("u", (2024, 1, 1, 0, 0, 0));
    w.webpage = "https://example.com/page".to_string();
    assert!(record("u", (2024, 1, 1, 0, 0, 0)) != w);
}

#[test]
fn new_record_is_stamped_now() {
    let r = HistorySession::new("u".to_string(), "w".to_string(), "f".to_string(), "n".to_string());
    assert!((1..=12).contains(&r.time.1));
    assert!((1..=31).contains(&r.time.2));
    assert!(r.time.0 >= 2000);
    assert_eq!(r.get_webpage(), "w");
    assert_eq!(r.get_file(), "f");
    assert_eq!(r.resume().download_url, "u");
}

#[test]
fn default_settings() {
    let s = Settings::default();
    assert_eq!(s.split_num, 16);
    assert_eq!(s.proxy, "");
    assert_eq!(s.user_agent, DEFAULT_USER_AGENT);
    assert!(!s.custom_theme && !s.dark_mode);
    assert!(Settings::new() == s);
    let mut t = s.duplicate();
    t.custom_theme = true;
    assert!(t == s);
    t.split_num = 4;
    assert!(t != s);
}

#[test]
fn empty_proxy_is_left_out() {
    let o = get_options("", &Settings::default(), "/d");
    assert_eq!(o.all_proxy, None);
    assert_eq!(o.header[0], "Cookie: ");
}

#[test]
fn theme_follows_system_unless_custom() {
    let mut s = Settings::default();
    assert!(!theme_change(&mut s, false, true));
    assert!(theme_change(&mut s, true, false));
    assert!(s.dark_mode);
    let mut c = Settings::default();
    c.custom_theme = true;
    assert!(!theme_change(&mut c, true, false));
    assert!(!c.dark_mode);
    assert!(theme_change(&mut c, true, true));
    assert!(!c.dark_mode);
}

#[test]
fn paths_join_like_path_join() {
    assert_eq!(join_path("/home/me".to_string(), "x"), "/home/me/x");
    assert_eq!(join_path("/home/me/".to_string(), "x"), "/home/me/x");
    assert_eq!(join_path(String::new(), "x"), "x");
    assert_eq!(
        app_support_path("/Users/me".to_string()),
        "/Users/me/Library/Application Support/com.iewnfod.ariadownloadmanager"
    );
    assert_eq!(
        save_path_in("/Users/me".to_string()),
        "/Users/me/Library/Application Support/com.iewnfod.ariadownloadmanager/settings.json"
    );
}

#[test]
fn download_directory() {
    assert_eq!(download_dir_for("me"), "/Users/me/Downloads");
    if let Some(d) = download_dir() {
        assert!(d.starts_with("/Users/") && d.ends_with("/Downloads"));
        assert!(d.len() > "/Users//Downloads".len());
    }
}

#[test]
fn decimal_text() {
    let mut s = String::from("n=");
    push_decimal(&mut s, 0);
    assert_eq!(s, "n=0");
    let mut t = String::new();
    push_decimal(&mut t, 18446744073709551615);
    assert_eq!(t, "18446744073709551615");
    let mut u = String::new();
    push_signed_decimal(&mut u, i32::MIN);
    assert_eq!(u, "-2147483648");
}

#[test]
fn joining_strings() {
    assert_eq!(join_strings(&vec![], ", "), "");
    assert_eq!(join_strings(&vec!["a".to_string()], ", "), "a");
    assert_eq!(join_strings(&vec!["a".to_string(), "b".to_string(), "c".to_string()], "; "), "a; b; c");
}

#[test]
fn storage_paths_of_current_user() {
    assert_eq!(history_path_in("/s".to_string()), "/s/history.json");
    if let Some(support) = get_app_support_path() {
        assert!(support.ends_with("/Library/Application Support/com.iewnfod.ariadownloadmanager"));
        assert_eq!(get_save_path().unwrap(), format!("{}/settings.json", support));
        assert_eq!(get_history_path().unwrap(), format!("{}/history.json", support));
    }
}

#[test]
fn put_replaces_record_under_same_identity() {
    let mut h = History::new();
    h.put("a".to_string(), record("u1", (2024, 1, 2, 3, 4, 5)));
    h.put("b".to_string(), record("u2", (2024, 1, 2, 3, 4, 5)));
    h.put("a".to_string(), record("u3", (2024, 1, 2, 3, 4, 5)));
    assert_eq!(h.len(), 2);
    let list = h.get_sessions();
    assert_eq!(list[0].0, "a");
    assert_eq!(list[0].1.get_url(), "u3");
    assert_eq!(list[1].0, "b");
}
