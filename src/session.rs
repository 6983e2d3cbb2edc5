//! One download job: its state machine, and what it shows of its progress.

use vstd::prelude::*;
use crate::intake::{Cookie, cookie_pair};
use crate::settings::{Settings, JobOptions, get_options, options_for};
use crate::status::{
    JobStatus,
    JobFile,
    status_completed,
    status_verifying,
    status_error,
    verified_of,
};
use crate::text::{join, all_chars, opt_chars, join_strings};

verus! {

/// The last segment of the path of `s` read as an absolute URL; none when
/// `s` is no absolute URL or its URL cannot be a base.
pub uninterp spec fn url_last_segment(s: Seq<char>) -> Option<Seq<char>>;

/// The final component of the path `p`, if it names one.
pub uninterp spec fn path_file_name(p: Seq<char>) -> Option<Seq<char>>;

/// Relies on url::Url::parse and Url::path_segments: the last segment of the
/// parsed URL's path. The segment iterator is never empty, so a URL that
/// can be a base always has a last segment.
#[verifier::external_body]
fn url_file_name(s: &str) -> (r: Option<String>)
    ensures
        opt_chars(r) == url_last_segment(s@),
{
    let parsed = url::Url::parse(s).ok()?;
    let segments = parsed.path_segments()?;
    segments.last().map(|n| n.to_string())
}

/// Relies on std::path::Path::file_name: the final component of a path,
/// when it is a normal component and valid UTF-8.
#[verifier::external_body]
fn file_name(p: &str) -> (r: Option<String>)
    ensures
        opt_chars(r) == path_file_name(p@),
{
    let name = std::path::Path::new(p).file_name()?;
    name.to_str().map(|n| n.to_string())
}

/// Relies on uuid::Uuid::new_v4 and its Display: a fresh random identifier.
#[verifier::external_body]
fn new_uid() -> (r: String) {
    uuid::Uuid::new_v4().to_string()
}

/// The stage of a job's life.
#[derive(Clone, Copy, Debug, PartialEq, Eq, Structural)]
pub enum Phase {
    Created,
    Starting,
    Running,
    Paused,
    Verifying,
    Completed,
    Errored,
    Removed,
}

/// What a session asks of the daemon after a transition.
pub enum SessionRequest {
    Nothing,
    AddUri { uri: String, options: JobOptions },
    Pause { gid: String },
    Unpause { gid: String },
    Remove { gid: String },
    TellStatus { gid: String },
}

/// Why a job could not be created.
#[derive(Clone, Copy, Debug, PartialEq, Eq, Structural)]
pub enum CreateError {
    /// The URL is empty once surrounding white space is gone.
    EmptyUrl,
    /// The URL is malformed or has no path segment to name the job by.
    InvalidUrl,
}

/// The least spacing, in milliseconds, between two status queries of a job.
pub const POLL_INTERVAL_MS: u64 = 100;

/// One download job.
pub struct Session {
    /// The local identity, fixed at creation.
    pub uid: String,
    /// The daemon's job id; empty until the daemon accepts the job.
    pub gid: String,
    pub url: String,
    pub webpage: String,
    /// The last report of the daemon.
    pub status: Option<JobStatus>,
    /// When the last status query went out, in milliseconds of the driver's clock.
    pub last_poll_ms: u64,
    pub poll_interval_ms: u64,
    /// A status query is out and not yet answered.
    pub in_flight: bool,
    /// The last explicit start or resume was not followed by a pause.
    pub running: bool,
    pub phase: Phase,
    /// The name taken from the URL.
    pub name: String,
    pub cookie: Vec<Cookie>,
    pub referrer: String,
    /// The last failure reported for this job.
    pub last_error: String,
}

/// The names of the files that have one, in order.
pub open spec fn file_names(files: Seq<JobFile>) -> Seq<Seq<char>>
    decreases files.len(),
{
    if files.len() == 0 {
        Seq::empty()
    } else {
        let rest = file_names(files.drop_last());
        match path_file_name(files.last().path@) {
            Some(n) => rest.push(n),
            None => rest,
        }
    }
}

/// The name shown for a job with the given file names, URL name and URL:
/// the file names if there are any, else the URL name, else the URL.
pub open spec fn name_from(files: Seq<Seq<char>>, name: Seq<char>, url: Seq<char>) -> Seq<char> {
    if files.len() != 0 {
        join(files, ", "@)
    } else if name.len() != 0 {
        name
    } else {
        url
    }
}

/// The names of the files a session's last report lists, none before any report.
pub open spec fn reported_names(s: Session) -> Seq<Seq<char>> {
    match s.status {
        Some(st) => file_names(st.files@),
        None => Seq::empty(),
    }
}

/// The name a session shows: its files' names once the daemon reports
/// some, else the name taken from the URL, else the URL itself.
pub open spec fn display_name(s: Session) -> Seq<char> {
    name_from(reported_names(s), s.name@, s.url@)
}

/// The name shown for a job with the file names `files`, the URL name
/// `name` and the URL `url`.
pub fn display_from(files: &Vec<String>, name: &String, url: &String) -> (r: String)
    ensures
        r@ == name_from(all_chars(files@), name@, url@),
{
    if files.len() != 0 {
        join_strings(files, ", ")
    } else if name.as_str().unicode_len() != 0 {
        name.clone()
    } else {
        url.clone()
    }
}

/// The cookie header value of a list of cookies.
pub open spec fn cookie_header(cookies: Seq<Cookie>) -> Seq<char> {
    join(cookies.map_values(|c: Cookie| cookie_pair(c)), "; "@)
}

/// The divisor of a speed shown in the given unit.
pub open spec fn unit_divisor(u: nat) -> nat {
    if u == 0 {
        1
    } else if u == 1 {
        1024
    } else if u == 2 {
        1048576
    } else if u == 3 {
        1073741824
    } else {
        1099511627776
    }
}

/// The least unit in which the speed's mantissa is at most 1024,
/// terabytes being the largest unit there is.
pub open spec fn speed_unit(speed: nat) -> nat {
    if speed <= 1024 {
        0
    } else if speed <= 1048576 {
        1
    } else if speed <= 1073741824 {
        2
    } else if speed <= 1099511627776 {
        3
    } else {
        4
    }
}

pub open spec fn unit_suffix(u: nat) -> Seq<char> {
    if u == 0 {
        "B/s"@
    } else if u == 1 {
        "KB/s"@
    } else if u == 2 {
        "MB/s"@
    } else if u == 3 {
        "GB/s"@
    } else {
        "TB/s"@
    }
}

/// The unit in which a speed is shown; see [`speed_unit`].
pub fn speed_unit_of(speed: u64) -> (u: usize)
    ensures
        u == speed_unit(speed as nat),
{
    if speed <= 1024 {
        0
    } else if speed <= 1048576 {
        1
    } else if speed <= 1073741824 {
        2
    } else if speed <= 1099511627776 {
        3
    } else {
        4
    }
}

/// The divisor of a speed shown in unit `u`.
pub fn unit_divisor_of(u: usize) -> (d: u64)
    ensures
        d == unit_divisor(u as nat),
{
    if u == 0 {
        1
    } else if u == 1 {
        1024
    } else if u == 2 {
        1048576
    } else if u == 3 {
        1073741824
    } else {
        1099511627776
    }
}

/// The suffix of unit `u`, from `B/s` up to `TB/s`.
pub fn unit_suffix_of(u: usize) -> (r: &'static str)
    ensures
        r@ == unit_suffix(u as nat),
{
    proof {
        reveal_strlit("B/s");
        reveal_strlit("KB/s");
        reveal_strlit("MB/s");
        reveal_strlit("GB/s");
        reveal_strlit("TB/s");
    }
    if u == 0 {
        "B/s"
    } else if u == 1 {
        "KB/s"
    } else if u == 2 {
        "MB/s"
    } else if u == 3 {
        "GB/s"
    } else {
        "TB/s"
    }
}

/// A speed is shown in the least unit whose mantissa is at most 1024,
/// terabytes being the largest unit there is: in its unit the mantissa is
/// at most 1024, and in the unit below it would exceed 1024.
pub proof fn lemma_speed_unit_least(speed: nat)
    ensures
        speed_unit(speed) <= 4,
        speed_unit(speed) < 4 ==> speed <= 1024 * unit_divisor(speed_unit(speed)),
        speed <= 1024 * unit_divisor(4) ==> speed <= 1024 * unit_divisor(speed_unit(speed)),
        speed_unit(speed) > 0 ==> speed > 1024 * unit_divisor((speed_unit(speed) - 1) as nat),
{
}

/// The phase a report implies for a job bound to the daemon.
pub open spec fn derived_phase(s: JobStatus, running: bool) -> Phase {
    if status_completed(s) {
        Phase::Completed
    } else if status_verifying(s) {
        Phase::Verifying
    } else if status_error(s) {
        Phase::Errored
    } else if running {
        Phase::Running
    } else {
        Phase::Paused
    }
}

/// What a session shows where its speed goes.
#[derive(Clone, Copy, Debug, PartialEq, Eq, Structural)]
pub enum SpeedLine {
    /// The job is complete.
    Completed,
    /// The daemon is checking the data.
    Verifying,
    /// The job runs at `speed` bytes per second, shown in unit `unit`.
    Rate { speed: u64, unit: usize },
    /// No speed to show: the job is not running or has no report yet.
    Stopped,
}

/// What a session shows where its speed goes.
pub open spec fn speed_line(s: Session) -> SpeedLine {
    match s.status {
        Some(st) => if status_completed(st) {
            SpeedLine::Completed
        } else if status_verifying(st) {
            SpeedLine::Verifying
        } else if s.gid@.len() != 0 && s.running {
            SpeedLine::Rate {
                speed: st.download_speed,
                unit: speed_unit(st.download_speed as nat) as usize,
            }
        } else {
            SpeedLine::Stopped
        },
        None => SpeedLine::Stopped,
    }
}

/// `s` is a new session for the job at `url`, named after the last segment
/// of its path, with no daemon job, no report and nothing attached.
pub open spec fn fresh_session(s: Session, url: Seq<char>) -> bool {
    &&& Some(s.name@) == url_last_segment(url)
    &&& s.url@ == url
    &&& s.gid@.len() == 0
    &&& s.status is None
    &&& s.phase is Created
    &&& !s.running
    &&& !s.in_flight
    &&& s.cookie@.len() == 0
    &&& s.webpage@.len() == 0
    &&& s.referrer@.len() == 0
    &&& s.last_error@.len() == 0
    &&& s.last_poll_ms == 0
    &&& s.poll_interval_ms == POLL_INTERVAL_MS
    &&& s.inv()
}

impl Session {
    /// The session's invariant: no phase is reported that the daemon has
    /// not backed.
    pub open spec fn inv(&self) -> bool {
        &&& (self.phase is Completed ==> (self.status matches Some(st) && status_completed(st)))
        &&& (self.phase is Running || self.phase is Paused || self.phase is Verifying)
            ==> self.gid@.len() != 0
        &&& self.running ==> self.gid@.len() != 0
        &&& self.phase is Removed ==> !self.running
        &&& self.poll_interval_ms == POLL_INTERVAL_MS
    }

    /// A session for the job at `url`, named after the last segment of
    /// the URL's path; no daemon job exists for it yet.
    pub fn new(url: String) -> (r: Result<Session, CreateError>)
        ensures
            url_last_segment(url@) is None <==> r is Err,
            r matches Err(e) ==> e is InvalidUrl,
            r matches Ok(s) ==> fresh_session(s, url@),
    {
        Session::new_with_uid(url, new_uid())
    }

    /// A session for the job at `url` whose local identity is `uid`.
    pub(crate) fn new_with_uid(url: String, uid: String) -> (r: Result<Session, CreateError>)
        ensures
            url_last_segment(url@) is None <==> r is Err,
            r matches Err(e) ==> e is InvalidUrl,
            r matches Ok(s) ==> fresh_session(s, url@) && s.uid@ == uid@,
    {
        let name = url_file_name(url.as_str());
        Session::from_name(url, name, uid)
    }

    /// A session for a job the daemon already runs under `gid`, fetching
    /// `url`, known locally as `uid`. It is named after the last segment of
    /// the URL's path when there is one, and is bound to the job at once.
    pub fn for_job(url: String, uid: String, gid: String) -> (r: Session)
        requires
            gid@.len() != 0,
        ensures
            r.inv(),
            r.url@ == url@,
            r.uid@ == uid@,
            r.gid@ == gid@,
            r.name@ == match url_last_segment(url@) {
                Some(n) => n,
                None => Seq::<char>::empty(),
            },
            r.phase is Starting,
            r.running,
            r.status is None,
            !r.in_flight,
            r.cookie@.len() == 0,
            r.webpage@.len() == 0,
            r.referrer@.len() == 0,
    {
        let name = match url_file_name(url.as_str()) {
            Some(n) => n,
            None => String::new(),
        };
        Session {
            uid,
            gid,
            url,
            webpage: String::new(),
            status: None,
            last_poll_ms: 0,
            poll_interval_ms: POLL_INTERVAL_MS,
            in_flight: false,
            running: true,
            phase: Phase::Starting,
            name,
            cookie: Vec::new(),
            referrer: String::new(),
            last_error: String::new(),
        }
    }

    /// A session for the job at `url` named `name`, the last segment of the
    /// URL's path, with local identity `uid`; none names no session.
    pub fn from_name(url: String, name: Option<String>, uid: String) -> (r: Result<
        Session,
        CreateError,
    >)
        ensures
            name is None <==> r is Err,
            r matches Err(e) ==> e is InvalidUrl,
            r matches Ok(s) ==> {
                &&& Some(s.name@) == opt_chars(name)
                &&& s.uid@ == uid@
                &&& s.url@ == url@
                &&& s.gid@.len() == 0
                &&& s.status is None
                &&& s.phase is Created
                &&& !s.running
                &&& !s.in_flight
                &&& s.cookie@.len() == 0
                &&& s.webpage@.len() == 0
                &&& s.referrer@.len() == 0
                &&& s.last_error@.len() == 0
                &&& s.last_poll_ms == 0
                &&& s.poll_interval_ms == POLL_INTERVAL_MS
                &&& s.inv()
            },
    {
        match name {
            None => Err(CreateError::InvalidUrl),
            Some(name) => Ok(
                Session {
                    uid,
                    gid: String::new(),
                    url,
                    webpage: String::new(),
                    status: None,
                    last_poll_ms: 0,
                    poll_interval_ms: POLL_INTERVAL_MS,
                    in_flight: false,
                    running: false,
                    phase: Phase::Created,
                    name,
                    cookie: Vec::new(),
                    referrer: String::new(),
                    last_error: String::new(),
                },
            ),
        }
    }

    pub fn get_uid(&self) -> (r: String)
        ensures
            r@ == self.uid@,
    {
        self.uid.clone()
    }

    pub fn get_url(&self) -> (r: String)
        ensures
            r@ == self.url@,
    {
        self.url.clone()
    }

    pub fn get_gid(&self) -> (r: String)
        ensures
            r@ == self.gid@,
    {
        self.gid.clone()
    }

    pub fn get_phase(&self) -> (r: Phase)
        ensures
            r == self.phase,
    {
        self.phase
    }

    pub fn get_last_error(&self) -> (r: String)
        ensures
            r@ == self.last_error@,
    {
        self.last_error.clone()
    }

    /// The path of the job's first file, empty before any report.
    pub fn get_file(&self) -> (r: String)
        ensures
            r@ == match self.status {
                Some(st) => if st.files@.len() > 0 {
                    st.files@[0].path@
                } else {
                    Seq::<char>::empty()
                },
                None => Seq::<char>::empty(),
            },
    {
        match &self.status {
            Some(st) => if st.files.len() > 0 {
                st.files[0].path.clone()
            } else {
                String::new()
            },
            None => String::new(),
        }
    }

    /// The name this session shows.
    pub fn get_name(&self) -> (r: String)
        ensures
            r@ == display_name(*self),
    {
        let mut names: Vec<String> = Vec::new();
        match &self.status {
            Some(st) => {
                let n = st.files.len();
                let mut i: usize = 0;
                while i < n
                    invariant
                        i <= n,
                        n == st.files@.len(),
                        all_chars(names@) == file_names(st.files@.subrange(0, i as int)),
                    decreases n - i,
                {
                    let ghost before = names@;
                    assert(st.files@.subrange(0, i + 1).drop_last() =~= st.files@.subrange(
                        0,
                        i as int,
                    ));
                    match file_name(st.files[i].path.as_str()) {
                        Some(f) => {
                            names.push(f);
                            assert(all_chars(names@) =~= all_chars(before).push(names@.last()@));
                        },
                        None => {},
                    }
                    i = i + 1;
                }
                assert(st.files@.subrange(0, n as int) =~= st.files@);
            },
            None => {
                assert(all_chars(names@) =~= Seq::<Seq<char>>::empty());
            },
        }
        display_from(&names, &self.name, &self.url)
    }

    /// A status line about this session: `verb` and the session's name in backquotes.
    pub fn notice(&self, verb: &str) -> (r: String)
        ensures
            r@ == verb@ + " `"@ + display_name(*self) + "`"@,
    {
        let mut r = String::from_str(verb);
        r.append(" `");
        let name = self.get_name();
        r.append(name.as_str());
        r.append("`");
        r
    }

    /// The progress as a fraction `(done, of)`: what the daemon last reported,
    /// and `(0, 1)` before the first report or while the total is unknown.
    pub fn get_process_parts(&self) -> (r: (u64, u64))
        ensures
            r.1 > 0,
            r == match self.status {
                Some(st) => if self.gid@.len() != 0 && st.total_length != 0 {
                    (st.completed_length, st.total_length)
                } else {
                    (0u64, 1u64)
                },
                None => (0u64, 1u64),
            },
    {
        if self.gid.as_str().unicode_len() != 0 {
            match &self.status {
                Some(st) => if st.total_length != 0 {
                    (st.completed_length, st.total_length)
                } else {
                    (0, 1)
                },
                None => (0, 1),
            }
        } else {
            (0, 1)
        }
    }

    /// The speed line: completion, verification, or the current speed
    /// with the unit to show it in.
    pub fn get_speed_line(&self) -> (r: SpeedLine)
        ensures
            r == speed_line(*self),
    {
        match &self.status {
            Some(st) => if st.is_completed() {
                SpeedLine::Completed
            } else if st.is_verifying() {
                SpeedLine::Verifying
            } else if self.gid.as_str().unicode_len() != 0 && self.running {
                SpeedLine::Rate {
                    speed: st.download_speed,
                    unit: speed_unit_of(st.download_speed),
                }
            } else {
                SpeedLine::Stopped
            },
            None => SpeedLine::Stopped,
        }
    }

    /// The daemon reports the job complete.
    pub fn is_completed(&self) -> (r: bool)
        ensures
            r == (self.status matches Some(st) && status_completed(st)),
    {
        match &self.status {
            Some(st) => st.is_completed(),
            None => false,
        }
    }

    /// The daemon's report carries the error code `"0"`.
    pub fn is_error(&self) -> (r: bool)
        ensures
            r == (self.status matches Some(st) && status_error(st)),
    {
        match &self.status {
            Some(st) => st.is_error(),
            None => false,
        }
    }

    /// The length the daemon has verified; zero when it reports none.
    pub fn get_verified_length(&self) -> (r: u64)
        ensures
            self.status matches Some(st) ==> r == verified_of(st),
            self.status is None ==> r == 0,
    {
        match &self.status {
            Some(st) => st.verified(),
            None => 0,
        }
    }

    /// The daemon has verified every byte of the job.
    pub fn is_verified(&self) -> (r: bool)
        ensures
            r == (self.status matches Some(st) && verified_of(st) == st.total_length),
    {
        match &self.status {
            Some(st) => st.verified() == st.total_length,
            None => false,
        }
    }

    pub fn get_connections_num(&self) -> (r: u64)
        ensures
            self.status matches Some(st) ==> r == st.connections,
            self.status is None ==> r == 0,
    {
        match &self.status {
            Some(st) => st.connections,
            None => 0,
        }
    }

    pub fn get_pieces_num(&self) -> (r: u64)
        ensures
            self.status matches Some(st) ==> r == st.num_pieces,
            self.status is None ==> r == 0,
    {
        match &self.status {
            Some(st) => st.num_pieces,
            None => 0,
        }
    }

    pub fn get_pieces_length(&self) -> (r: u64)
        ensures
            self.status matches Some(st) ==> r == st.piece_length,
            self.status is None ==> r == 0,
    {
        match &self.status {
            Some(st) => st.piece_length,
            None => 0,
        }
    }

    /// The daemon's error code; `"0"` when a report has none, empty before any report.
    pub fn get_error_code(&self) -> (r: String)
        ensures
            self.status is None ==> r@.len() == 0,
            self.status matches Some(st) ==> r@ == match st.error_code {
                Some(c) => c@,
                None => "0"@,
            },
    {
        match &self.status {
            Some(st) => match &st.error_code {
                Some(c) => c.clone(),
                None => String::from_str("0"),
            },
            None => String::new(),
        }
    }

    /// The daemon's error message; empty when there is none.
    pub fn get_error_msg(&self) -> (r: String)
        ensures
            self.status is None ==> r@.len() == 0,
            self.status matches Some(st) ==> r@ == match st.error_message {
                Some(m) => m@,
                None => Seq::<char>::empty(),
            },
    {
        match &self.status {
            Some(st) => match &st.error_message {
                Some(m) => m.clone(),
                None => String::new(),
            },
            None => String::new(),
        }
    }

    pub fn set_cookie(&mut self, cookie: Vec<Cookie>)
        ensures
            *final(self) == (Session { cookie, ..*old(self) }),
    {
        self.cookie = cookie;
    }

    /// The cookies as one header value, `name=value` pairs joined by `; `.
    pub fn get_cookie(&self) -> (r: String)
        ensures
            r@ == cookie_header(self.cookie@),
    {
        let mut pairs: Vec<String> = Vec::new();
        let n = self.cookie.len();
        let mut i: usize = 0;
        while i < n
            invariant
                i <= n,
                n == self.cookie@.len(),
                all_chars(pairs@) == self.cookie@.subrange(0, i as int).map_values(
                    |c: Cookie| cookie_pair(c),
                ),
            decreases n - i,
        {
            let ghost before = pairs@;
            let pair = self.cookie[i].to_string();
            pairs.push(pair);
            assert(all_chars(pairs@) =~= all_chars(before).push(pair@));
            assert(all_chars(pairs@) =~= self.cookie@.subrange(0, i + 1).map_values(
                |c: Cookie| cookie_pair(c),
            ));
            i = i + 1;
        }
        assert(self.cookie@.subrange(0, n as int) =~= self.cookie@);
        join_strings(&pairs, "; ")
    }

    pub fn set_referer(&mut self, referrer: String)
        ensures
            *final(self) == (Session { referrer, ..*old(self) }),
    {
        self.referrer = referrer;
    }

    pub fn get_referer(&self) -> (r: String)
        ensures
            r@ == self.referrer@,
    {
        self.referrer.clone()
    }

    pub fn set_webpage(&mut self, webpage: String)
        ensures
            *final(self) == (Session { webpage, ..*old(self) }),
    {
        self.webpage = webpage;
    }

    pub fn get_webpage(&self) -> (r: String)
        ensures
            r@ == self.webpage@,
    {
        self.webpage.clone()
    }

    pub fn get_status(&self) -> (r: &Option<JobStatus>)
        ensures
            *r == self.status,
    {
        &self.status
    }
}

/// `start` has nothing to do: the job is over, on its way, or running.
pub open spec fn start_idle(s: Session) -> bool {
    s.phase is Removed || s.phase is Completed || s.phase is Starting || s.running
}

/// A status query is due at `now_ms`.
pub open spec fn poll_due(s: Session, now_ms: u64) -> bool {
    &&& s.gid@.len() != 0
    &&& !(s.phase is Removed || s.phase is Completed)
    &&& !s.in_flight
    &&& now_ms >= s.last_poll_ms
    &&& now_ms - s.last_poll_ms > s.poll_interval_ms
}

/// A report moves the phase of a session that the daemon backs and that
/// is not over.
pub open spec fn takes_reports(s: Session) -> bool {
    s.gid@.len() != 0 && !(s.phase is Removed || s.phase is Completed)
}

/// `t` and `r` are the session and request after `start` on `s`.
pub open spec fn start_step(
    s: Session,
    t: Session,
    r: SessionRequest,
    settings: Settings,
    dir: Seq<char>,
) -> bool {
    &&& start_idle(s) ==> r is Nothing && t == s
    &&& !start_idle(s) && s.gid@.len() == 0 ==> {
        &&& t == (Session { phase: Phase::Starting, ..s })
        &&& r matches SessionRequest::AddUri { uri, options }
        &&& uri@ == s.url@
        &&& options_for(options, cookie_header(s.cookie@), settings, dir)
    }
    &&& !start_idle(s) && s.gid@.len() != 0 ==> {
        &&& t == (Session { phase: Phase::Running, running: true, ..s })
        &&& r matches SessionRequest::Unpause { gid }
        &&& gid@ == s.gid@
    }
}

/// `t` is `s` once the daemon accepted its job under `gid`.
pub open spec fn bind_step(s: Session, t: Session, gid: Seq<char>) -> bool {
    &&& t.gid@ == gid
    &&& s.phase is Removed ==> t == (Session { gid: t.gid, ..s })
    &&& !(s.phase is Removed) ==> t == (Session {
        gid: t.gid,
        running: true,
        phase: Phase::Starting,
        ..s
    })
}

/// `t` is `s` once the daemon refused its job with `message`.
pub open spec fn refuse_step(s: Session, t: Session, message: Seq<char>) -> bool {
    &&& t.last_error@ == message
    &&& s.phase is Removed ==> t == (Session { last_error: t.last_error, ..s })
    &&& !(s.phase is Removed) ==> t == (Session {
        phase: Phase::Errored,
        last_error: t.last_error,
        ..s
    })
}

/// `t` and `r` are the session and request after `pause` on `s`.
pub open spec fn pause_step(s: Session, t: Session, r: SessionRequest) -> bool {
    &&& s.phase is Running ==> {
        &&& t == (Session { phase: Phase::Paused, running: false, ..s })
        &&& r matches SessionRequest::Pause { gid }
        &&& gid@ == s.gid@
    }
    &&& !(s.phase is Running) ==> r is Nothing && t == s
}

/// `t` and `r` are the session and request after `unpause` on `s`.
pub open spec fn unpause_step(s: Session, t: Session, r: SessionRequest) -> bool {
    &&& s.phase is Paused ==> {
        &&& t == (Session { phase: Phase::Running, running: true, ..s })
        &&& r matches SessionRequest::Unpause { gid }
        &&& gid@ == s.gid@
    }
    &&& !(s.phase is Paused) ==> r is Nothing && t == s
}

/// `t` and `r` are the session and request after `remove` on `s`.
pub open spec fn remove_step(s: Session, t: Session, r: SessionRequest) -> bool {
    &&& t.phase is Removed
    &&& s.phase is Removed ==> r is Nothing && t == s
    &&& !(s.phase is Removed) ==> t == (Session { phase: Phase::Removed, running: false, ..s })
    &&& !(s.phase is Removed) && s.gid@.len() != 0 ==> (r matches SessionRequest::Remove { gid }
        && gid@ == s.gid@)
    &&& !(s.phase is Removed) && s.gid@.len() == 0 ==> r is Nothing
}

/// `t` and `r` are the session and request after `update_status` at `now_ms` on `s`.
pub open spec fn poll_step(s: Session, t: Session, r: SessionRequest, now_ms: u64) -> bool {
    &&& poll_due(s, now_ms) ==> {
        &&& t == (Session { in_flight: true, last_poll_ms: now_ms, ..s })
        &&& r matches SessionRequest::TellStatus { gid }
        &&& gid@ == s.gid@
    }
    &&& !poll_due(s, now_ms) ==> r is Nothing && t == s
}

/// `t` is `s` after the report `st` came in.
pub open spec fn report_step(s: Session, t: Session, st: JobStatus) -> bool {
    &&& takes_reports(s) ==> t == (Session {
        status: Some(st),
        in_flight: false,
        phase: derived_phase(st, s.running),
        ..s
    })
    &&& !takes_reports(s) ==> t == (Session { in_flight: false, ..s })
}

/// `t` is `s` after a status query failed with `message`.
pub open spec fn poll_failed_step(s: Session, t: Session, message: Seq<char>) -> bool {
    &&& t.last_error@ == message
    &&& t == (Session { in_flight: false, last_error: t.last_error, ..s })
}

/// Removing a session twice is harmless: both times it ends removed, and
/// the second removal changes nothing and asks nothing of the daemon.
pub proof fn lemma_remove_twice(s0: Session, s1: Session, s2: Session, r1: SessionRequest, r2: SessionRequest)
    requires
        remove_step(s0, s1, r1),
        remove_step(s1, s2, r2),
    ensures
        s1.phase is Removed,
        s2.phase is Removed,
        s2 == s1,
        r2 is Nothing,
{
}

impl Session {
    /// Starts the job: a fresh one is handed to the daemon with options
    /// taken from `settings` now, a stopped one is resumed.
    pub fn start(&mut self, settings: &Settings, download_dir: &str) -> (r: SessionRequest)
        requires
            old(self).inv(),
        ensures
            final(self).inv(),
            start_step(*old(self), *final(self), r, *settings, download_dir@),
    {
        if self.phase == Phase::Removed || self.phase == Phase::Completed || self.phase
            == Phase::Starting || self.running {
            return SessionRequest::Nothing;
        }
        if self.gid.as_str().unicode_len() == 0 {
            let cookie = self.get_cookie();
            let options = get_options(cookie.as_str(), settings, download_dir);
            self.phase = Phase::Starting;
            SessionRequest::AddUri { uri: self.url.clone(), options }
        } else {
            self.running = true;
            self.phase = Phase::Running;
            SessionRequest::Unpause { gid: self.gid.clone() }
        }
    }

    /// The daemon accepted the job under `gid`.
    pub fn start_handler(&mut self, gid: String)
        requires
            old(self).inv(),
            gid@.len() != 0,
        ensures
            final(self).inv(),
            bind_step(*old(self), *final(self), gid@),
    {
        self.gid = gid;
        if self.phase != Phase::Removed {
            self.running = true;
            self.phase = Phase::Starting;
        }
    }

    /// The daemon refused the job; `message` is what it said.
    pub fn start_failed(&mut self, message: String)
        requires
            old(self).inv(),
        ensures
            final(self).inv(),
            refuse_step(*old(self), *final(self), message@),
    {
        self.last_error = message;
        if self.phase != Phase::Removed {
            self.phase = Phase::Errored;
        }
    }

    /// Pauses a running job.
    pub fn pause(&mut self) -> (r: SessionRequest)
        requires
            old(self).inv(),
        ensures
            final(self).inv(),
            pause_step(*old(self), *final(self), r),
    {
        if self.phase == Phase::Running {
            self.phase = Phase::Paused;
            self.running = false;
            SessionRequest::Pause { gid: self.gid.clone() }
        } else {
            SessionRequest::Nothing
        }
    }

    /// Resumes a paused job.
    pub fn unpause(&mut self) -> (r: SessionRequest)
        requires
            old(self).inv(),
        ensures
            final(self).inv(),
            unpause_step(*old(self), *final(self), r),
    {
        if self.phase == Phase::Paused {
            self.phase = Phase::Running;
            self.running = true;
            SessionRequest::Unpause { gid: self.gid.clone() }
        } else {
            SessionRequest::Nothing
        }
    }

    /// Stops tracking the job, whatever the daemon answers; a job the
    /// daemon holds is removed there too. Removing twice does nothing more.
    pub fn remove(&mut self) -> (r: SessionRequest)
        requires
            old(self).inv(),
        ensures
            final(self).inv(),
            remove_step(*old(self), *final(self), r),
    {
        if self.phase == Phase::Removed {
            return SessionRequest::Nothing;
        }
        self.phase = Phase::Removed;
        self.running = false;
        if self.gid.as_str().unicode_len() != 0 {
            SessionRequest::Remove { gid: self.gid.clone() }
        } else {
            SessionRequest::Nothing
        }
    }

    /// Asks for a report when the last query is answered and older than
    /// the poll interval.
    pub fn update_status(&mut self, now_ms: u64) -> (r: SessionRequest)
        requires
            old(self).inv(),
        ensures
            final(self).inv(),
            poll_step(*old(self), *final(self), r, now_ms),
    {
        if self.gid.as_str().unicode_len() != 0 && self.phase != Phase::Removed && self.phase
            != Phase::Completed && !self.in_flight && now_ms >= self.last_poll_ms && now_ms
            - self.last_poll_ms > self.poll_interval_ms {
            self.in_flight = true;
            self.last_poll_ms = now_ms;
            SessionRequest::TellStatus { gid: self.gid.clone() }
        } else {
            SessionRequest::Nothing
        }
    }

    /// Takes the daemon's report and derives the phase from it.
    pub fn update_status_handler(&mut self, new_status: JobStatus)
        requires
            old(self).inv(),
        ensures
            final(self).inv(),
            report_step(*old(self), *final(self), new_status),
    {
        self.in_flight = false;
        if self.gid.as_str().unicode_len() != 0 && self.phase != Phase::Removed && self.phase
            != Phase::Completed {
            let phase = if new_status.is_completed() {
                Phase::Completed
            } else if new_status.is_verifying() {
                Phase::Verifying
            } else if new_status.is_error() {
                Phase::Errored
            } else if self.running {
                Phase::Running
            } else {
                Phase::Paused
            };
            self.status = Some(new_status);
            self.phase = phase;
        }
    }

    /// A status query failed; the phase stays, the failure is kept for display.
    pub fn update_status_failed(&mut self, message: String)
        requires
            old(self).inv(),
        ensures
            final(self).inv(),
            poll_failed_step(*old(self), *final(self), message@),
    {
        self.in_flight = false;
        self.last_error = message;
    }
}

} // verus!
