//! The sessions this process tracks, keyed by their local identity, and
//! their reconciliation with the jobs the daemon reports.

use vstd::prelude::*;
use crate::intake::Info;
use crate::session::{
    Session,
    SessionRequest,
    CreateError,
    url_last_segment,
    start_step,
    bind_step,
    refuse_step,
    pause_step,
    unpause_step,
    poll_step,
    report_step,
    poll_failed_step,
    remove_step,
};
use crate::settings::Settings;
use crate::status::JobStatus;

verus! {

/// `c` has Unicode's White_Space property.
pub open spec fn is_white_space(c: char) -> bool {
    let u = c as u32;
    ||| 0x09 <= u <= 0x0D
    ||| u == 0x20
    ||| u == 0x85
    ||| u == 0xA0
    ||| u == 0x1680
    ||| 0x2000 <= u <= 0x200A
    ||| u == 0x2028
    ||| u == 0x2029
    ||| u == 0x202F
    ||| u == 0x205F
    ||| u == 0x3000
}

/// `s` without its leading white space.
pub open spec fn trim_start(s: Seq<char>) -> Seq<char>
    decreases s.len(),
{
    if s.len() > 0 && is_white_space(s[0]) {
        trim_start(s.drop_first())
    } else {
        s
    }
}

/// `s` without its trailing white space.
pub open spec fn trim_end(s: Seq<char>) -> Seq<char>
    decreases s.len(),
{
    if s.len() > 0 && is_white_space(s.last()) {
        trim_end(s.drop_last())
    } else {
        s
    }
}

/// `s` without leading and trailing white space.
pub open spec fn trimmed(s: Seq<char>) -> Seq<char> {
    trim_end(trim_start(s))
}

/// Relies on str::trim: the string without the leading and trailing
/// characters that have Unicode's White_Space property.
#[verifier::external_body]
fn trim_text(s: &str) -> (r: String)
    ensures
        r@ == trimmed(s@),
{
    s.trim().to_string()
}

/// The session at `i` has the local identity `uid`.
pub open spec fn uid_at(s: Seq<Session>, uid: Seq<char>, i: int) -> bool {
    0 <= i < s.len() && s[i].uid@ == uid
}

pub open spec fn has_uid(s: Seq<Session>, uid: Seq<char>) -> bool {
    exists|i: int| uid_at(s, uid, i)
}

/// Some session holds the daemon job `gid`.
pub open spec fn has_gid(s: Seq<Session>, gid: Seq<char>) -> bool {
    exists|i: int| 0 <= i < s.len() && #[trigger] s[i].gid@ == gid
}

/// Every session keeps its own invariant, local identities are unique, and
/// no daemon job is held by two sessions.
pub open spec fn registry_wf(s: Seq<Session>) -> bool {
    &&& forall|i: int| 0 <= i < s.len() ==> #[trigger] s[i].inv()
    &&& forall|i: int, j: int|
        0 <= i < s.len() && 0 <= j < s.len() && i != j ==> #[trigger] s[i].uid@ != #[trigger] s[j].uid@
    &&& forall|i: int, j: int|
        0 <= i < s.len() && 0 <= j < s.len() && i != j && s[i].gid@.len() != 0
            ==> #[trigger] s[i].gid@ != #[trigger] s[j].gid@
}

/// `s` is a fresh session for the request `info`, whose URL reads `url`
/// once trimmed.
pub open spec fn fresh_for(s: Session, info: Info, url: Seq<char>) -> bool {
    &&& s.url@ == url
    &&& Some(s.name@) == url_last_segment(url)
    &&& s.gid@.len() == 0
    &&& s.status is None
    &&& s.phase is Created
    &&& !s.running
    &&& !s.in_flight
    &&& s.cookie@ == info.download_cookie@
    &&& s.webpage@ == info.webpage_url@
    &&& s.referrer@ == info.download_referer@
}

/// The first URI of the first file of a report; empty when there is none.
pub open spec fn first_uri(st: JobStatus) -> Seq<char> {
    if st.files@.len() > 0 && st.files@[0].uris@.len() > 0 {
        st.files@[0].uris@[0]@
    } else {
        Seq::<char>::empty()
    }
}

/// Replacing a session by one with the same identities that keeps its
/// invariant keeps the registry well formed.
proof fn lemma_update_wf(s: Seq<Session>, i: int, t: Session)
    requires
        registry_wf(s),
        0 <= i < s.len(),
        t.inv(),
        t.uid@ == s[i].uid@,
        t.gid@ == s[i].gid@,
    ensures
        registry_wf(s.update(i, t)),
{
    let u = s.update(i, t);
    assert forall|a: int, b: int|
        0 <= a < u.len() && 0 <= b < u.len() && a != b implies #[trigger] u[a].uid@ != #[trigger] u[b].uid@ by {
        assert(u[a].uid@ == s[a].uid@);
        assert(u[b].uid@ == s[b].uid@);
    }
    assert forall|a: int, b: int|
        0 <= a < u.len() && 0 <= b < u.len() && a != b && u[a].gid@.len() != 0 implies #[trigger] u[a].gid@ != #[trigger] u[b].gid@ by {
        assert(u[a].gid@ == s[a].gid@);
        assert(u[b].gid@ == s[b].gid@);
    }
}

/// Another session than the one at `i` holds the daemon job `gid`.
pub open spec fn held_elsewhere(s: Seq<Session>, gid: Seq<char>, i: int) -> bool {
    exists|j: int| 0 <= j < s.len() && j != i && #[trigger] s[j].gid@ == gid
}

/// Dropping a session keeps the registry well formed.
proof fn lemma_remove_wf(s: Seq<Session>, i: int)
    requires
        registry_wf(s),
        0 <= i < s.len(),
    ensures
        registry_wf(s.remove(i)),
{
    let u = s.remove(i);
    assert forall|a: int| 0 <= a < u.len() implies #[trigger] u[a].inv() by {
        if a < i {
            assert(u[a] == s[a]);
        } else {
            assert(u[a] == s[a + 1]);
        }
    }
    assert forall|a: int, b: int|
        0 <= a < u.len() && 0 <= b < u.len() && a != b implies #[trigger] u[a].uid@ != #[trigger] u[b].uid@ by {
        let sa = if a < i { a } else { a + 1 };
        let sb = if b < i { b } else { b + 1 };
        assert(u[a] == s[sa]);
        assert(u[b] == s[sb]);
    }
    assert forall|a: int, b: int|
        0 <= a < u.len() && 0 <= b < u.len() && a != b && u[a].gid@.len() != 0 implies #[trigger] u[a].gid@ != #[trigger] u[b].gid@ by {
        let sa = if a < i { a } else { a + 1 };
        let sb = if b < i { b } else { b + 1 };
        assert(u[a] == s[sa]);
        assert(u[b] == s[sb]);
    }
}

/// Binding the session at `i` to a job no other session holds keeps the
/// registry well formed.
proof fn lemma_bind_wf(s: Seq<Session>, i: int, t: Session)
    requires
        registry_wf(s),
        0 <= i < s.len(),
        t.inv(),
        t.uid@ == s[i].uid@,
        t.gid@.len() != 0 ==> !held_elsewhere(s, t.gid@, i),
    ensures
        registry_wf(s.update(i, t)),
{
    let u = s.update(i, t);
    assert forall|a: int, b: int|
        0 <= a < u.len() && 0 <= b < u.len() && a != b implies #[trigger] u[a].uid@ != #[trigger] u[b].uid@ by {
        assert(u[a].uid@ == s[a].uid@);
        assert(u[b].uid@ == s[b].uid@);
    }
    assert forall|a: int, b: int|
        0 <= a < u.len() && 0 <= b < u.len() && a != b && u[a].gid@.len() != 0 implies #[trigger] u[a].gid@ != #[trigger] u[b].gid@ by {
        if a == i {
            assert(s[b].gid@ == u[b].gid@);
        } else if b == i {
            assert(s[a].gid@ == u[a].gid@);
            if t.gid@.len() != 0 {
                assert(!(s[a].gid@ == t.gid@));
            }
        }
    }
}

/// Appending a session with a new identity that holds no job held already
/// keeps the registry well formed.
proof fn lemma_push_wf(s: Seq<Session>, t: Session)
    requires
        registry_wf(s),
        t.inv(),
        !has_uid(s, t.uid@),
        t.gid@.len() != 0 ==> !has_gid(s, t.gid@),
    ensures
        registry_wf(s.push(t)),
{
    let u = s.push(t);
    assert forall|a: int| 0 <= a < u.len() implies #[trigger] u[a].inv() by {
        if a < s.len() {
            assert(u[a] == s[a]);
        }
    }
    assert forall|a: int, b: int|
        0 <= a < u.len() && 0 <= b < u.len() && a != b implies #[trigger] u[a].uid@ != #[trigger] u[b].uid@ by {
        if a == s.len() {
            assert(!uid_at(s, t.uid@, b));
        } else if b == s.len() {
            assert(!uid_at(s, t.uid@, a));
        }
    }
    assert forall|a: int, b: int|
        0 <= a < u.len() && 0 <= b < u.len() && a != b && u[a].gid@.len() != 0 implies #[trigger] u[a].gid@ != #[trigger] u[b].gid@ by {
        if a == s.len() {
            assert(u[b] == s[b]);
        } else if b == s.len() {
            assert(u[a] == s[a]);
        }
    }
}

/// What stays true of `s` when a session is appended.
proof fn lemma_push_keeps(s: Seq<Session>, t: Session)
    ensures
        forall|g: Seq<char>| has_gid(s, g) ==> has_gid(s.push(t), g),
        forall|g: Seq<char>| has_uid(s, g) ==> has_uid(s.push(t), g),
{
    assert forall|g: Seq<char>| has_gid(s, g) implies has_gid(s.push(t), g) by {
        let j = choose|j: int| 0 <= j < s.len() && #[trigger] s[j].gid@ == g;
        assert(s.push(t)[j] == s[j]);
    }
    assert forall|g: Seq<char>| has_uid(s, g) implies has_uid(s.push(t), g) by {
        let j = choose|j: int| uid_at(s, g, j);
        assert(s.push(t)[j] == s[j]);
        assert(uid_at(s.push(t), g, j));
    }
}

/// `t` is the registry `s` after a request `info` whose URL reads `url`
/// once trimmed made the session `uid`; a session that had that identity
/// is replaced, the others stay where they were.
pub open spec fn created(
    s: Seq<Session>,
    t: Seq<Session>,
    uid: Seq<char>,
    info: Info,
    url: Seq<char>,
) -> bool {
    &&& exists|i: int| uid_at(t, uid, i) && fresh_for(t[i], info, url)
    &&& t.len() == if has_uid(s, uid) {
        s.len()
    } else {
        s.len() + 1
    }
    &&& forall|j: int| 0 <= j < s.len() && s[j].uid@ != uid ==> t[j] == s[j]
}

/// `t` is the registry `s` after a request `info`, whose URL reads `url`
/// once trimmed, made the session `uid` and started it with the request
/// `req`, under `settings` and into `dir`; a session that had that identity
/// is replaced, the others stay where they were.
pub open spec fn created_started(
    s: Seq<Session>,
    t: Seq<Session>,
    uid: Seq<char>,
    info: Info,
    url: Seq<char>,
    req: SessionRequest,
    settings: Settings,
    dir: Seq<char>,
) -> bool {
    &&& exists|i: int, s0: Session|
        uid_at(t, uid, i) && fresh_for(s0, info, url) && s0.uid@ == uid && start_step(
            s0,
            t[i],
            req,
            settings,
            dir,
        )
    &&& t.len() == if has_uid(s, uid) {
        s.len()
    } else {
        s.len() + 1
    }
    &&& forall|j: int| 0 <= j < s.len() && s[j].uid@ != uid ==> t[j] == s[j]
}

/// `s` is a session that reconciliation made for one of the jobs `active`:
/// bound to the job and fetching its first URI.
pub open spec fn adopted_from(s: Session, active: Seq<JobStatus>) -> bool {
    exists|k: int|
        0 <= k < active.len() && s.gid@ == active[k].gid@ && s.url@ == first_uri(active[k])
            && s.phase is Starting && s.running
}

/// In a well-formed registry no daemon job is held by two sessions. Every
/// operation that adds sessions or binds them to jobs (`create`,
/// `start_handler`, `reconcile`) keeps the registry well formed, in whatever
/// order they come.
pub proof fn lemma_one_session_per_job(r: SessionRegistry, i: int, j: int)
    requires
        r.wf(),
        0 <= i < r.sessions().len(),
        0 <= j < r.sessions().len(),
        i != j,
        r.sessions()[i].gid@.len() != 0,
    ensures
        r.sessions()[i].gid@ != r.sessions()[j].gid@,
{
}

/// All sessions, each owned exclusively by the registry.
pub struct SessionRegistry {
    sessions: Vec<Session>,
}

impl SessionRegistry {
    pub closed spec fn sessions(&self) -> Seq<Session> {
        self.sessions@
    }

    pub open spec fn wf(&self) -> bool {
        registry_wf(self.sessions())
    }

    pub fn new() -> (r: SessionRegistry)
        ensures
            r.wf(),
            r.sessions().len() == 0,
    {
        SessionRegistry { sessions: Vec::new() }
    }

    pub fn len(&self) -> (r: usize)
        ensures
            r == self.sessions().len(),
    {
        self.sessions.len()
    }

    /// The sessions, for display.
    pub fn list(&self) -> (r: &Vec<Session>)
        ensures
            r@ == self.sessions(),
    {
        &self.sessions
    }

    /// Where the session with local identity `uid` stands.
    pub fn find(&self, uid: &str) -> (r: Option<usize>)
        ensures
            r matches Some(i) ==> uid_at(self.sessions(), uid@, i as int),
            r is None ==> !has_uid(self.sessions(), uid@),
    {
        let key = String::from_str(uid);
        let n = self.sessions.len();
        let mut i: usize = 0;
        while i < n
            invariant
                i <= n,
                n == self.sessions@.len(),
                key@ == uid@,
                forall|k: int| 0 <= k < i ==> self.sessions@[k].uid@ != uid@,
            decreases n - i,
        {
            if self.sessions[i].uid == key {
                return Some(i);
            }
            i = i + 1;
        }
        None
    }

    /// Where the session that holds the daemon job `gid` stands.
    pub fn find_gid(&self, gid: &str) -> (r: Option<usize>)
        ensures
            r matches Some(i) ==> i < self.sessions().len() && self.sessions()[i as int].gid@
                == gid@,
            r is None ==> !has_gid(self.sessions(), gid@),
    {
        let key = String::from_str(gid);
        let n = self.sessions.len();
        let mut i: usize = 0;
        while i < n
            invariant
                i <= n,
                n == self.sessions@.len(),
                key@ == gid@,
                forall|k: int| 0 <= k < i ==> self.sessions@[k].gid@ != gid@,
            decreases n - i,
        {
            if self.sessions[i].gid == key {
                return Some(i);
            }
            i = i + 1;
        }
        None
    }

    pub fn contains(&self, uid: &str) -> (r: bool)
        ensures
            r == has_uid(self.sessions(), uid@),
    {
        self.find(uid).is_some()
    }

    pub fn get(&self, uid: &str) -> (r: Option<&Session>)
        ensures
            r matches Some(s) ==> exists|i: int|
                uid_at(self.sessions(), uid@, i) && *s == self.sessions()[i],
            r is None ==> !has_uid(self.sessions(), uid@),
    {
        match self.find(uid) {
            Some(i) => Some(&self.sessions[i]),
            None => None,
        }
    }

    /// Starts the session `uid`; see [`Session::start`].
    pub fn start(&mut self, uid: &str, settings: &Settings, download_dir: &str) -> (r: SessionRequest)
        requires
            old(self).wf(),
        ensures
            final(self).wf(),
            !has_uid(old(self).sessions(), uid@) ==> r is Nothing && final(self).sessions() == old(self).sessions(),
            forall|i: int|
                uid_at(old(self).sessions(), uid@, i) ==> {
                    &&& final(self).sessions() == old(self).sessions().update(
                        i,
                        final(self).sessions()[i],
                    )
                    &&& start_step(old(self).sessions()[i], final(self).sessions()[i], r, *settings, download_dir@)
                },
    {
        match self.find(uid) {
            None => SessionRequest::Nothing,
            Some(i) => {
                let mut s = self.sessions.remove(i);
                let r = s.start(settings, download_dir);
                self.sessions.insert(i, s);
                proof {
                    lemma_update_wf(old(self).sessions(), i as int, self.sessions@[i as int]);
                }
                assert(self.sessions@ =~= old(self).sessions().update(i as int, self.sessions@[i as int]));
                r
            },
        }
    }

    /// The daemon refused the job of session `uid` with `message`.
    pub fn start_failed(&mut self, uid: &str, message: String)
        requires
            old(self).wf(),
        ensures
            final(self).wf(),
            !has_uid(old(self).sessions(), uid@) ==> final(self).sessions() == old(self).sessions(),
            forall|i: int|
                uid_at(old(self).sessions(), uid@, i) ==> {
                    &&& final(self).sessions() == old(self).sessions().update(
                        i,
                        final(self).sessions()[i],
                    )
                    &&& refuse_step(old(self).sessions()[i], final(self).sessions()[i], message@)
                },
    {
        match self.find(uid) {
            None => {},
            Some(i) => {
                let mut s = self.sessions.remove(i);
                s.start_failed(message);
                self.sessions.insert(i, s);
                proof {
                    lemma_update_wf(old(self).sessions(), i as int, self.sessions@[i as int]);
                }
                assert(self.sessions@ =~= old(self).sessions().update(i as int, self.sessions@[i as int]));
            },
        }
    }

    /// Pauses the session `uid`.
    pub fn pause(&mut self, uid: &str) -> (r: SessionRequest)
        requires
            old(self).wf(),
        ensures
            final(self).wf(),
            !has_uid(old(self).sessions(), uid@) ==> r is Nothing && final(self).sessions() == old(self).sessions(),
            forall|i: int|
                uid_at(old(self).sessions(), uid@, i) ==> {
                    &&& final(self).sessions() == old(self).sessions().update(
                        i,
                        final(self).sessions()[i],
                    )
                    &&& pause_step(old(self).sessions()[i], final(self).sessions()[i], r)
                },
    {
        match self.find(uid) {
            None => SessionRequest::Nothing,
            Some(i) => {
                let mut s = self.sessions.remove(i);
                let r = s.pause();
                self.sessions.insert(i, s);
                proof {
                    lemma_update_wf(old(self).sessions(), i as int, self.sessions@[i as int]);
                }
                assert(self.sessions@ =~= old(self).sessions().update(i as int, self.sessions@[i as int]));
                r
            },
        }
    }

    /// Resumes the session `uid`.
    pub fn unpause(&mut self, uid: &str) -> (r: SessionRequest)
        requires
            old(self).wf(),
        ensures
            final(self).wf(),
            !has_uid(old(self).sessions(), uid@) ==> r is Nothing && final(self).sessions() == old(self).sessions(),
            forall|i: int|
                uid_at(old(self).sessions(), uid@, i) ==> {
                    &&& final(self).sessions() == old(self).sessions().update(
                        i,
                        final(self).sessions()[i],
                    )
                    &&& unpause_step(old(self).sessions()[i], final(self).sessions()[i], r)
                },
    {
        match self.find(uid) {
            None => SessionRequest::Nothing,
            Some(i) => {
                let mut s = self.sessions.remove(i);
                let r = s.unpause();
                self.sessions.insert(i, s);
                proof {
                    lemma_update_wf(old(self).sessions(), i as int, self.sessions@[i as int]);
                }
                assert(self.sessions@ =~= old(self).sessions().update(i as int, self.sessions@[i as int]));
                r
            },
        }
    }

    /// Asks for a report of session `uid` when one is due at `now_ms`.
    pub fn update_status(&mut self, uid: &str, now_ms: u64) -> (r: SessionRequest)
        requires
            old(self).wf(),
        ensures
            final(self).wf(),
            !has_uid(old(self).sessions(), uid@) ==> r is Nothing && final(self).sessions() == old(self).sessions(),
            forall|i: int|
                uid_at(old(self).sessions(), uid@, i) ==> {
                    &&& final(self).sessions() == old(self).sessions().update(
                        i,
                        final(self).sessions()[i],
                    )
                    &&& poll_step(old(self).sessions()[i], final(self).sessions()[i], r, now_ms)
                },
    {
        match self.find(uid) {
            None => SessionRequest::Nothing,
            Some(i) => {
                let mut s = self.sessions.remove(i);
                let r = s.update_status(now_ms);
                self.sessions.insert(i, s);
                proof {
                    lemma_update_wf(old(self).sessions(), i as int, self.sessions@[i as int]);
                }
                assert(self.sessions@ =~= old(self).sessions().update(i as int, self.sessions@[i as int]));
                r
            },
        }
    }

    /// Hands the daemon's report to session `uid`.
    pub fn update_status_handler(&mut self, uid: &str, new_status: JobStatus)
        requires
            old(self).wf(),
        ensures
            final(self).wf(),
            !has_uid(old(self).sessions(), uid@) ==> final(self).sessions() == old(self).sessions(),
            forall|i: int|
                uid_at(old(self).sessions(), uid@, i) ==> {
                    &&& final(self).sessions() == old(self).sessions().update(
                        i,
                        final(self).sessions()[i],
                    )
                    &&& report_step(old(self).sessions()[i], final(self).sessions()[i], new_status)
                },
    {
        match self.find(uid) {
            None => {},
            Some(i) => {
                let mut s = self.sessions.remove(i);
                s.update_status_handler(new_status);
                self.sessions.insert(i, s);
                proof {
                    lemma_update_wf(old(self).sessions(), i as int, self.sessions@[i as int]);
                }
                assert(self.sessions@ =~= old(self).sessions().update(i as int, self.sessions@[i as int]));
            },
        }
    }

    /// A status query of session `uid` failed with `message`.
    pub fn update_status_failed(&mut self, uid: &str, message: String)
        requires
            old(self).wf(),
        ensures
            final(self).wf(),
            !has_uid(old(self).sessions(), uid@) ==> final(self).sessions() == old(self).sessions(),
            forall|i: int|
                uid_at(old(self).sessions(), uid@, i) ==> {
                    &&& final(self).sessions() == old(self).sessions().update(
                        i,
                        final(self).sessions()[i],
                    )
                    &&& poll_failed_step(old(self).sessions()[i], final(self).sessions()[i], message@)
                },
    {
        match self.find(uid) {
            None => {},
            Some(i) => {
                let mut s = self.sessions.remove(i);
                s.update_status_failed(message);
                self.sessions.insert(i, s);
                proof {
                    lemma_update_wf(old(self).sessions(), i as int, self.sessions@[i as int]);
                }
                assert(self.sessions@ =~= old(self).sessions().update(i as int, self.sessions@[i as int]));
            },
        }
    }

    /// Some session other than the one at `i` holds the daemon job `gid`.
    fn held_by_other(&self, gid: &str, i: usize) -> (r: bool)
        ensures
            r == held_elsewhere(self.sessions(), gid@, i as int),
    {
        let key = String::from_str(gid);
        let n = self.sessions.len();
        let mut j: usize = 0;
        while j < n
            invariant
                j <= n,
                n == self.sessions@.len(),
                key@ == gid@,
                forall|k: int| 0 <= k < j && k != i ==> self.sessions@[k].gid@ != gid@,
            decreases n - j,
        {
            if j != i && self.sessions[j].gid == key {
                return true;
            }
            j = j + 1;
        }
        false
    }

    /// The daemon accepted the job of session `uid` under `gid`. When
    /// another session already holds that job, as one that reconciliation
    /// found while the request was out, session `uid` is dropped so that
    /// the job stays with one session. The result says whether `uid` was
    /// bound.
    pub fn start_handler(&mut self, uid: &str, gid: String) -> (bound: bool)
        requires
            old(self).wf(),
            gid@.len() != 0,
        ensures
            final(self).wf(),
            !has_uid(old(self).sessions(), uid@) ==> !bound && final(self).sessions() == old(self).sessions(),
            forall|i: int|
                uid_at(old(self).sessions(), uid@, i) && held_elsewhere(
                    old(self).sessions(),
                    gid@,
                    i,
                ) ==> !bound && final(self).sessions() == old(self).sessions().remove(i),
            forall|i: int|
                uid_at(old(self).sessions(), uid@, i) && !held_elsewhere(
                    old(self).sessions(),
                    gid@,
                    i,
                ) ==> {
                    &&& bound
                    &&& final(self).sessions() == old(self).sessions().update(
                        i,
                        final(self).sessions()[i],
                    )
                    &&& bind_step(old(self).sessions()[i], final(self).sessions()[i], gid@)
                },
    {
        match self.find(uid) {
            None => false,
            Some(i) => {
                if self.held_by_other(gid.as_str(), i) {
                    self.sessions.remove(i);
                    proof {
                        lemma_remove_wf(old(self).sessions(), i as int);
                    }
                    false
                } else {
                    let mut s = self.sessions.remove(i);
                    s.start_handler(gid);
                    self.sessions.insert(i, s);
                    proof {
                        lemma_bind_wf(old(self).sessions(), i as int, self.sessions@[i as int]);
                    }
                    assert(self.sessions@ =~= old(self).sessions().update(
                        i as int,
                        self.sessions@[i as int],
                    ));
                    true
                }
            },
        }
    }

    /// Removes session `uid` and stops tracking it; see [`Session::remove`].
    pub fn remove(&mut self, uid: &str) -> (r: SessionRequest)
        requires
            old(self).wf(),
        ensures
            final(self).wf(),
            !has_uid(old(self).sessions(), uid@) ==> r is Nothing && final(self).sessions()
                == old(self).sessions(),
            forall|i: int|
                uid_at(old(self).sessions(), uid@, i) ==> {
                    &&& final(self).sessions() == old(self).sessions().remove(i)
                    &&& exists|t: Session| remove_step(old(self).sessions()[i], t, r)
                },
    {
        match self.find(uid) {
            None => SessionRequest::Nothing,
            Some(i) => {
                let mut s = self.sessions.remove(i);
                let r = s.remove();
                proof {
                    lemma_remove_wf(old(self).sessions(), i as int);
                }
                assert(remove_step(old(self).sessions()[i as int], s, r));
                r
            },
        }
    }

    /// Removes every session from the daemon, as on quitting; the
    /// sessions stay, marked removed. One request comes back per session,
    /// in order.
    pub fn remove_all(&mut self) -> (r: Vec<SessionRequest>)
        requires
            old(self).wf(),
        ensures
            final(self).wf(),
            final(self).sessions().len() == old(self).sessions().len(),
            r@.len() == old(self).sessions().len(),
            forall|i: int|
                0 <= i < r@.len() ==> remove_step(
                    old(self).sessions()[i],
                    final(self).sessions()[i],
                    #[trigger] r@[i],
                ),
    {
        let mut out: Vec<SessionRequest> = Vec::new();
        let n = self.sessions.len();
        let mut i: usize = 0;
        while i < n
            invariant
                i <= n,
                n == old(self).sessions().len(),
                self.sessions@.len() == n,
                registry_wf(self.sessions@),
                out@.len() == i,
                forall|k: int| i <= k < n ==> self.sessions@[k] == old(self).sessions()[k],
                forall|k: int|
                    0 <= k < i ==> remove_step(
                        old(self).sessions()[k],
                        self.sessions@[k],
                        #[trigger] out@[k],
                    ),
            decreases n - i,
        {
            let ghost before = self.sessions@;
            let mut s = self.sessions.remove(i);
            let req = s.remove();
            self.sessions.insert(i, s);
            proof {
                lemma_update_wf(before, i as int, self.sessions@[i as int]);
            }
            assert(self.sessions@ =~= before.update(i as int, self.sessions@[i as int]));
            out.push(req);
            i = i + 1;
        }
        out
    }

    /// Creates a session for the request `info`. The URL is trimmed first;
    /// an empty or malformed one, or one with no path segment, is refused
    /// and the registry stays as it was. The result is the new session's
    /// local identity.
    pub fn create(&mut self, info: Info) -> (r: Result<String, CreateError>)
        requires
            old(self).wf(),
        ensures
            final(self).wf(),
            trimmed(info.download_url@).len() == 0 ==> r == Err::<String, CreateError>(
                CreateError::EmptyUrl,
            ) && final(self).sessions() == old(self).sessions(),
            trimmed(info.download_url@).len() != 0 && url_last_segment(
                trimmed(info.download_url@),
            ) is None ==> r == Err::<String, CreateError>(CreateError::InvalidUrl) && final(self).sessions() == old(self).sessions(),
            trimmed(info.download_url@).len() != 0 && url_last_segment(
                trimmed(info.download_url@),
            ) is Some ==> (r matches Ok(uid) && created(
                old(self).sessions(),
                final(self).sessions(),
                uid@,
                info,
                trimmed(info.download_url@),
            )),
    {
        let url = trim_text(info.download_url.as_str());
        if url.as_str().unicode_len() == 0 {
            return Err(CreateError::EmptyUrl);
        }
        let mut s = match Session::new(url) {
            Ok(s) => s,
            Err(e) => {
                return Err(e);
            },
        };
        s.set_cookie(info.download_cookie);
        s.set_webpage(info.webpage_url);
        s.set_referer(info.download_referer);
        let uid = s.get_uid();
        match self.find(uid.as_str()) {
            Some(i) => {
                self.sessions.remove(i);
                self.sessions.insert(i, s);
                proof {
                    lemma_bind_wf(old(self).sessions(), i as int, self.sessions@[i as int]);
                }
                assert(self.sessions@ =~= old(self).sessions().update(
                    i as int,
                    self.sessions@[i as int],
                ));
                assert(uid_at(self.sessions@, uid@, i as int));
                assert forall|j: int|
                    0 <= j < old(self).sessions().len() && old(self).sessions()[j].uid@
                        != uid@ implies self.sessions@[j] == old(self).sessions()[j] by {
                    assert(j != i);
                }
            },
            None => {
                proof {
                    lemma_push_wf(old(self).sessions(), s);
                }
                self.sessions.push(s);
                assert(uid_at(self.sessions@, uid@, old(self).sessions().len() as int));
            },
        }
        Ok(uid)
    }

    /// `base`, or `base` with as many `-` appended as it takes to be no
    /// session's local identity.
    fn free_uid(&self, base: String) -> (r: String)
        ensures
            !has_uid(self.sessions(), r@),
            !has_uid(self.sessions(), base@) ==> r@ == base@,
    {
        let n = self.sessions.len();
        let mut longest: usize = 0;
        let mut i: usize = 0;
        while i < n
            invariant
                i <= n,
                n == self.sessions@.len(),
                forall|k: int| 0 <= k < i ==> self.sessions@[k].uid@.len() <= longest,
            decreases n - i,
        {
            let len = self.sessions[i].uid.as_str().unicode_len();
            if len > longest {
                longest = len;
            }
            i = i + 1;
        }
        let mut uid = base;
        let ghost first = uid@;
        while self.find(uid.as_str()).is_some()
            invariant
                n == self.sessions@.len(),
                forall|k: int| 0 <= k < n ==> self.sessions@[k].uid@.len() <= longest,
                !has_uid(self.sessions(), first) ==> uid@ == first,
            decreases longest + 1 - uid@.len(),
        {
            let ghost at = choose|k: int| uid_at(self.sessions(), uid@, k);
            assert(uid@.len() <= longest) by {
                assert(uid_at(self.sessions(), uid@, at));
            }
            proof {
                reveal_strlit("-");
            }
            uid.append("-");
        }
        uid
    }

    /// Takes up the jobs the daemon reports active that no session holds
    /// yet, such as jobs started before this process. Each new session is
    /// bound to its job at once and known locally by the job's id, with `-`
    /// appended while that is already some session's identity. Sessions
    /// already there stay as they were. The result is how many were added.
    pub fn reconcile(&mut self, active: &Vec<JobStatus>) -> (added: usize)
        requires
            old(self).wf(),
        ensures
            final(self).wf(),
            final(self).sessions().len() == old(self).sessions().len() + added,
            final(self).sessions().subrange(0, old(self).sessions().len() as int) == old(self).sessions(),
            forall|j: int|
                old(self).sessions().len() <= j < final(self).sessions().len() ==> adopted_from(
                    #[trigger] final(self).sessions()[j],
                    active@,
                ),
            forall|k: int|
                0 <= k < active@.len() && (#[trigger] active@[k]).gid@.len() != 0 ==> has_gid(
                    final(self).sessions(),
                    active@[k].gid@,
                ),
    {
        let ghost start = self.sessions@;
        let n = active.len();
        let mut added: usize = 0;
        let mut i: usize = 0;
        while i < n
            invariant
                i <= n,
                n == active@.len(),
                added <= i,
                start == old(self).sessions(),
                registry_wf(self.sessions@),
                self.sessions@.len() == start.len() + added,
                self.sessions@.subrange(0, start.len() as int) == start,
                forall|j: int|
                    start.len() <= j < self.sessions@.len() ==> adopted_from(
                        #[trigger] self.sessions@[j],
                        active@,
                    ),
                forall|k: int|
                    0 <= k < i && (#[trigger] active@[k]).gid@.len() != 0 ==> has_gid(
                        self.sessions@,
                        active@[k].gid@,
                    ),
            decreases n - i,
        {
            let st = &active[i];
            if st.gid.as_str().unicode_len() != 0 && self.find_gid(st.gid.as_str()).is_none() {
                let url = if st.files.len() > 0 && st.files[0].uris.len() > 0 {
                    st.files[0].uris[0].clone()
                } else {
                    String::new()
                };
                let uid = self.free_uid(st.gid.clone());
                let s = Session::for_job(url, uid, st.gid.clone());
                let ghost before = self.sessions@;
                proof {
                    lemma_push_wf(before, s);
                    lemma_push_keeps(before, s);
                }
                self.sessions.push(s);
                assert(self.sessions@.subrange(0, start.len() as int) =~= start) by {
                    assert(before.subrange(0, start.len() as int) == start);
                }
                assert(adopted_from(s, active@)) by {
                    assert(s.url@ == first_uri(active@[i as int]));
                }
                assert(0 <= before.len() < self.sessions@.len() && self.sessions@[before.len() as int].gid@ == st.gid@);
                added = added + 1;
            }
            i = i + 1;
        }
        added
    }

    /// Creates a session for the request `info` as [`Self::create`] does,
    /// then starts it with options taken from `settings` now. The result is
    /// the new session's identity and the request for the daemon.
    pub fn new_session(&mut self, info: Info, settings: &Settings, download_dir: &str) -> (r:
        Result<(String, SessionRequest), CreateError>)
        requires
            old(self).wf(),
        ensures
            final(self).wf(),
            trimmed(info.download_url@).len() == 0 ==> r is Err && r->Err_0 == CreateError::EmptyUrl
                && final(self).sessions() == old(self).sessions(),
            trimmed(info.download_url@).len() != 0 && url_last_segment(
                trimmed(info.download_url@),
            ) is None ==> r is Err && r->Err_0 == CreateError::InvalidUrl && final(self).sessions()
                == old(self).sessions(),
            trimmed(info.download_url@).len() != 0 && url_last_segment(
                trimmed(info.download_url@),
            ) is Some ==> (r matches Ok((uid, req)) && created_started(
                old(self).sessions(),
                final(self).sessions(),
                uid@,
                info,
                trimmed(info.download_url@),
                req,
                *settings,
                download_dir@,
            )),
    {
        let ghost info0 = info;
        match self.create(info) {
            Err(e) => Err(e),
            Ok(uid) => {
                let ghost mid = self.sessions@;
                let req = self.start(uid.as_str(), settings, download_dir);
                proof {
                    let i = choose|i: int|
                        uid_at(mid, uid@, i) && fresh_for(
                            mid[i],
                            info0,
                            trimmed(info0.download_url@),
                        );
                    assert(uid_at(self.sessions@, uid@, i));
                    assert(start_step(mid[i], self.sessions@[i], req, *settings, download_dir@));
                    assert forall|j: int|
                        0 <= j < old(self).sessions().len() && old(self).sessions()[j].uid@
                            != uid@ implies self.sessions@[j] == old(self).sessions()[j] by {
                        assert(j != i);
                    }
                }
                Ok((uid, req))
            },
        }
    }
}

} // verus!
