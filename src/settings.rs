//! User settings, where they are kept on disk, and the options a new job
//! is added with.

use vstd::prelude::*;
use crate::text::join;

verus! {

/// The bundle directory under the user's application support directory.
pub const BUNDLE_ID: &'static str = "com.iewnfod.ariadownloadmanager";

pub const SETTINGS_FILE: &'static str = "settings.json";

/// The browser identity sent with each request unless the user sets another.
pub const DEFAULT_USER_AGENT: &'static str = "Mozilla/5.0 (Macintosh; Intel Mac OS X 10_15_7) AppleWebKit/537.36 (KHTML, like Gecko) Chrome/120.0.0.0 Safari/537.36";

/// `part` appended to the path `base`, with a separator unless `base` is
/// empty or already ends in one.
pub open spec fn path_join(base: Seq<char>, part: Seq<char>) -> Seq<char> {
    if base.len() == 0 || base.last() == '/' {
        base + part
    } else {
        base + seq!['/'] + part
    }
}

/// The application support directory under a home directory.
pub open spec fn app_support_path_of(home: Seq<char>) -> Seq<char> {
    path_join(path_join(path_join(home, "Library"@), "Application Support"@), BUNDLE_ID@)
}

/// The download directory of a user.
pub open spec fn download_dir_of(user: Seq<char>) -> Seq<char> {
    "/Users/"@ + user + "/Downloads"@
}

/// Relies on users::get_current_uid, users::get_user_by_uid and
/// UserExt::home_dir: the home directory of the user running the process,
/// when that user can be looked up and the path is valid UTF-8.
#[verifier::external_body]
fn current_home_dir() -> (r: Option<String>) {
    let user = users::get_user_by_uid(users::get_current_uid())?;
    let home = users::os::unix::UserExt::home_dir(&user);
    home.to_str().map(|s| s.to_string())
}

/// Relies on users::get_current_username: the login name of the user
/// running the process, when it can be looked up and is valid UTF-8.
#[verifier::external_body]
fn current_username() -> (r: Option<String>) {
    let name = users::get_current_username()?;
    name.to_str().map(|s| s.to_string())
}

/// Appends `part` to the path `base` as `Path::join` does for a relative part.
pub fn join_path(base: String, part: &str) -> (r: String)
    ensures
        r@ == path_join(base@, part@),
{
    proof {
        reveal_strlit("/");
    }
    let n = base.as_str().unicode_len();
    let mut r = base;
    if n == 0 || r.as_str().get_char(n - 1) == '/' {
        r.append(part);
    } else {
        r.append("/");
        r.append(part);
    }
    r
}

/// The application support directory of the given home directory.
pub fn app_support_path(home: String) -> (r: String)
    ensures
        r@ == app_support_path_of(home@),
{
    let p = join_path(home, "Library");
    let p = join_path(p, "Application Support");
    join_path(p, BUNDLE_ID)
}

/// The application support directory of the current user, when the user's
/// home directory can be found.
pub fn get_app_support_path() -> (r: Option<String>)
    ensures
        r matches Some(p) ==> exists|home: Seq<char>| p@ == app_support_path_of(home),
{
    match current_home_dir() {
        Some(home) => Some(app_support_path(home)),
        None => None,
    }
}

/// Where the settings are saved, under a given home directory.
pub fn save_path_in(home: String) -> (r: String)
    ensures
        r@ == path_join(app_support_path_of(home@), SETTINGS_FILE@),
{
    join_path(app_support_path(home), SETTINGS_FILE)
}

/// Where the settings of the current user are saved.
pub fn get_save_path() -> (r: Option<String>)
    ensures
        r matches Some(p) ==> exists|home: Seq<char>|
            p@ == path_join(app_support_path_of(home), SETTINGS_FILE@),
{
    match current_home_dir() {
        Some(home) => Some(save_path_in(home)),
        None => None,
    }
}

/// The download directory of the named user.
pub fn download_dir_for(user: &str) -> (r: String)
    ensures
        r@ == download_dir_of(user@),
{
    let mut r = String::from_str("/Users/");
    r.append(user);
    r.append("/Downloads");
    r
}

/// The download directory of the current user, when the user's name can be found.
pub fn download_dir() -> (r: Option<String>)
    ensures
        r matches Some(d) ==> exists|user: Seq<char>| d@ == download_dir_of(user),
{
    match current_username() {
        Some(user) => Some(download_dir_for(user.as_str())),
        None => None,
    }
}

/// The user's configuration.
pub struct Settings {
    /// How many connections a new job opens to its server.
    pub split_num: i32,
    /// The proxy for every protocol; empty for none.
    pub proxy: String,
    pub user_agent: String,
    /// The user picks the theme instead of following the system.
    pub custom_theme: bool,
    pub dark_mode: bool,
    pub close_after_seconds: u64,
}

impl Default for Settings {
    fn default() -> (r: Settings)
        ensures
            r.split_num == 16,
            r.proxy@ == Seq::<char>::empty(),
            r.user_agent@ == DEFAULT_USER_AGENT@,
            !r.custom_theme,
            !r.dark_mode,
            r.close_after_seconds == 0,
    {
        Settings {
            split_num: 16,
            proxy: String::new(),
            user_agent: String::from_str(DEFAULT_USER_AGENT),
            custom_theme: false,
            dark_mode: false,
            close_after_seconds: 0,
        }
    }
}

/// Two settings are the same when they would configure jobs and the
/// theme alike.
pub open spec fn settings_same(a: Settings, b: Settings) -> bool {
    &&& a.split_num == b.split_num
    &&& a.proxy@ == b.proxy@
    &&& a.user_agent@ == b.user_agent@
    &&& a.dark_mode == b.dark_mode
}

impl PartialEq for Settings {
    fn eq(&self, other: &Settings) -> (r: bool) {
        self.split_num == other.split_num && self.proxy == other.proxy && self.user_agent
            == other.user_agent && self.dark_mode == other.dark_mode
    }
}

impl vstd::std_specs::cmp::PartialEqSpecImpl for Settings {
    open spec fn obeys_eq_spec() -> bool {
        true
    }

    open spec fn eq_spec(&self, other: &Settings) -> bool {
        settings_same(*self, *other)
    }
}

impl Settings {
    pub fn new() -> (r: Settings)
        ensures
            r.split_num == 16,
            r.proxy@ == Seq::<char>::empty(),
            r.user_agent@ == DEFAULT_USER_AGENT@,
            !r.custom_theme,
            !r.dark_mode,
            r.close_after_seconds == 0,
    {
        Settings::default()
    }

    /// Sets the connection count of new jobs, held to the range 1 to 64.
    pub fn set_split_num(&mut self, n: i32)
        ensures
            *final(self) == (Settings {
                split_num: if n < 1 {
                    1
                } else if n > 64 {
                    64
                } else {
                    n
                },
                ..*old(self)
            }),
    {
        self.split_num = if n < 1 {
            1
        } else if n > 64 {
            64
        } else {
            n
        };
    }

    pub fn duplicate(&self) -> (r: Settings)
        ensures
            r == *self,
    {
        Settings {
            split_num: self.split_num,
            proxy: self.proxy.clone(),
            user_agent: self.user_agent.clone(),
            custom_theme: self.custom_theme,
            dark_mode: self.dark_mode,
            close_after_seconds: self.close_after_seconds,
        }
    }
}

/// Follows a change of the system's appearance. Without a custom theme the
/// settings take the system's mode; with one they stay as they are. The
/// result says whether the display has to be brought in line with the
/// settings.
pub fn theme_change(settings: &mut Settings, system_dark: bool, visual_dark: bool) -> (update:
    bool)
    ensures
        old(settings).dark_mode == system_dark ==> !update && *final(settings) == *old(settings),
        old(settings).dark_mode != system_dark && !old(settings).custom_theme ==> update
            && *final(settings) == (Settings { dark_mode: system_dark, ..*old(settings) }),
        old(settings).dark_mode != system_dark && old(settings).custom_theme ==> update == (
        old(settings).dark_mode != visual_dark) && *final(settings) == *old(settings),
{
    if settings.dark_mode != system_dark {
        if !settings.custom_theme {
            settings.dark_mode = system_dark;
            true
        } else {
            settings.dark_mode != visual_dark
        }
    } else {
        false
    }
}

/// The options a job is added with: how to fetch it, and where to put it.
pub struct JobOptions {
    pub split: i32,
    pub all_proxy: Option<String>,
    pub header: Vec<String>,
    pub dir: String,
}

/// The headers sent with each request of a job.
pub open spec fn job_headers(cookie: Seq<char>, user_agent: Seq<char>) -> Seq<Seq<char>> {
    seq!["Cookie: "@ + cookie, "User-Agent: "@ + user_agent]
}

/// `o` are the options of a job with the given cookie header, added under
/// `settings` into `dir`.
pub open spec fn options_for(o: JobOptions, cookie: Seq<char>, settings: Settings, dir: Seq<
    char,
>) -> bool {
    &&& o.split == settings.split_num
    &&& (settings.proxy@.len() == 0 ==> o.all_proxy is None)
    &&& (settings.proxy@.len() != 0 ==> (o.all_proxy matches Some(p) && p@ == settings.proxy@))
    &&& o.header@.len() == 2
    &&& o.header@[0]@ == job_headers(cookie, settings.user_agent@)[0]
    &&& o.header@[1]@ == job_headers(cookie, settings.user_agent@)[1]
    &&& o.dir@ == dir
}

/// The options of a new job, from the settings at the moment it is added.
pub fn get_options(cookie: &str, settings: &Settings, dir: &str) -> (r: JobOptions)
    ensures
        options_for(r, cookie@, *settings, dir@),
{
    let all_proxy = if settings.proxy.as_str().unicode_len() != 0 {
        Some(settings.proxy.clone())
    } else {
        None
    };
    let mut cookie_header = String::from_str("Cookie: ");
    cookie_header.append(cookie);
    let mut agent_header = String::from_str("User-Agent: ");
    agent_header.append(settings.user_agent.as_str());
    let mut header = Vec::new();
    header.push(cookie_header);
    header.push(agent_header);
    JobOptions { split: settings.split_num, all_proxy, header, dir: String::from_str(dir) }
}

} // verus!
