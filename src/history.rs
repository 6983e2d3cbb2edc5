//! The record of every job ever started, kept apart from the sessions
//! tracked now, with change detection so that unchanged jobs cause no write.

use vstd::prelude::*;
use vstd::seq_lib::{to_multiset_build, to_multiset_insert};
use crate::intake::Info;
use crate::session::{Session, display_name};
use crate::settings::{app_support_path_of, get_app_support_path, join_path, path_join};
use crate::text::{
    decimal,
    signed_decimal,
    push_decimal,
    push_signed_decimal,
    text_before,
    text_before_exec,
    lemma_text_before_irreflexive,
    lemma_text_before_transitive,
};

verus! {

/// The local date and time, as year, month, day, hour, minute and second.
pub type Stamp = (i32, u32, u32, u32, u32, u32);

pub const HISTORY_FILE: &'static str = "history.json";

/// Where the history is saved, under a given application support directory.
pub fn history_path_in(support: String) -> (r: String)
    ensures
        r@ == path_join(support@, HISTORY_FILE@),
{
    join_path(support, HISTORY_FILE)
}

/// Where the history of the current user is saved.
pub fn get_history_path() -> (r: Option<String>)
    ensures
        r matches Some(p) ==> exists|home: Seq<char>|
            p@ == path_join(app_support_path_of(home), HISTORY_FILE@),
{
    match get_app_support_path() {
        Some(support) => Some(history_path_in(support)),
        None => None,
    }
}

/// Relies on chrono::Local::now with the Datelike and Timelike accessors:
/// the local date and time now. Months run from 1 to 12, days from 1 to 31,
/// hours from 0 to 23, minutes and seconds from 0 to 59.
#[verifier::external_body]
fn local_now() -> (r: Stamp)
    ensures
        1 <= r.1 <= 12,
        1 <= r.2 <= 31,
        r.3 < 24,
        r.4 < 60,
        r.5 < 60,
{
    let t = chrono::Local::now();
    (
        chrono::Datelike::year(&t),
        chrono::Datelike::month(&t),
        chrono::Datelike::day(&t),
        chrono::Timelike::hour(&t),
        chrono::Timelike::minute(&t),
        chrono::Timelike::second(&t),
    )
}

/// `a` comes strictly before `b`, field by field from the year down.
pub open spec fn stamp_before(a: Stamp, b: Stamp) -> bool {
    ||| a.0 < b.0
    ||| a.0 == b.0 && a.1 < b.1
    ||| a.0 == b.0 && a.1 == b.1 && a.2 < b.2
    ||| a.0 == b.0 && a.1 == b.1 && a.2 == b.2 && a.3 < b.3
    ||| a.0 == b.0 && a.1 == b.1 && a.2 == b.2 && a.3 == b.3 && a.4 < b.4
    ||| a.0 == b.0 && a.1 == b.1 && a.2 == b.2 && a.3 == b.3 && a.4 == b.4 && a.5 < b.5
}

/// The stamp as `year-month-day hour:minute:second`, without padding.
pub open spec fn stamp_text(t: Stamp) -> Seq<char> {
    signed_decimal(t.0 as int) + "-"@ + decimal(t.1 as nat) + "-"@ + decimal(t.2 as nat) + " "@
        + decimal(t.3 as nat) + ":"@ + decimal(t.4 as nat) + ":"@ + decimal(t.5 as nat)
}

/// One job as the history keeps it.
pub struct HistorySession {
    pub url: String,
    pub webpage: String,
    pub file: String,
    pub name: String,
    /// When the record was made.
    pub time: Stamp,
}

/// Two records describe the same job: the same URL, web page, file and
/// name. The time they were made does not count.
pub open spec fn record_same(a: HistorySession, b: HistorySession) -> bool {
    a.url@ == b.url@ && a.webpage@ == b.webpage@ && a.file@ == b.file@ && a.name@ == b.name@
}

/// `a` is listed after `b`: it was made earlier, or at the same time with
/// a URL, then file, then name that comes first.
pub open spec fn record_before(a: HistorySession, b: HistorySession) -> bool {
    ||| stamp_before(a.time, b.time)
    ||| a.time == b.time && text_before(a.url@, b.url@)
    ||| a.time == b.time && a.url@ == b.url@ && text_before(a.file@, b.file@)
    ||| a.time == b.time && a.url@ == b.url@ && a.file@ == b.file@ && text_before(a.name@, b.name@)
}

/// The listing order is a strict order.
pub proof fn lemma_record_before_order(a: HistorySession, b: HistorySession, c: HistorySession)
    ensures
        !record_before(a, a),
        record_before(a, b) && record_before(b, c) ==> record_before(a, c),
{
    lemma_text_before_irreflexive(a.url@);
    lemma_text_before_irreflexive(a.file@);
    lemma_text_before_irreflexive(a.name@);
    if record_before(a, b) && record_before(b, c) {
        if a.time == b.time && b.time == c.time {
            if text_before(a.url@, b.url@) && text_before(b.url@, c.url@) {
                lemma_text_before_transitive(a.url@, b.url@, c.url@);
            }
            if a.url@ == b.url@ && b.url@ == c.url@ && text_before(a.file@, b.file@) && text_before(
                b.file@,
                c.file@,
            ) {
                lemma_text_before_transitive(a.file@, b.file@, c.file@);
            }
            if a.url@ == b.url@ && b.url@ == c.url@ && a.file@ == b.file@ && b.file@ == c.file@
                && text_before(a.name@, b.name@) && text_before(b.name@, c.name@) {
                lemma_text_before_transitive(a.name@, b.name@, c.name@);
            }
        }
    }
}

/// `a` is listed after `b`; see [`record_before`].
pub fn record_before_exec(a: &HistorySession, b: &HistorySession) -> (r: bool)
    ensures
        r == record_before(*a, *b),
{
    if stamp_before_exec(&a.time, &b.time) {
        return true;
    }
    if stamp_before_exec(&b.time, &a.time) {
        return false;
    }
    if text_before_exec(a.url.as_str(), b.url.as_str()) {
        return true;
    }
    if a.url != b.url {
        return false;
    }
    if text_before_exec(a.file.as_str(), b.file.as_str()) {
        return true;
    }
    if a.file != b.file {
        return false;
    }
    text_before_exec(a.name.as_str(), b.name.as_str())
}

/// The path of the first file a session reports, empty before any report.
pub open spec fn first_file(s: Session) -> Seq<char> {
    match s.status {
        Some(st) => if st.files@.len() > 0 {
            st.files@[0].path@
        } else {
            Seq::<char>::empty()
        },
        None => Seq::<char>::empty(),
    }
}

/// `rec` is what the history keeps of session `s`, made at any time.
pub open spec fn projection_of(rec: HistorySession, s: Session) -> bool {
    &&& rec.url@ == s.url@
    &&& rec.webpage@ == s.webpage@
    &&& rec.file@ == first_file(s)
    &&& rec.name@ == display_name(s)
}

impl PartialEq for HistorySession {
    fn eq(&self, other: &HistorySession) -> (r: bool) {
        self.url == other.url && self.webpage == other.webpage && self.file == other.file
            && self.name == other.name
    }
}

impl vstd::std_specs::cmp::PartialEqSpecImpl for HistorySession {
    open spec fn obeys_eq_spec() -> bool {
        true
    }

    open spec fn eq_spec(&self, other: &HistorySession) -> bool {
        record_same(*self, *other)
    }
}

impl HistorySession {
    /// A record made now.
    pub fn new(url: String, webpage: String, file: String, name: String) -> (r: HistorySession)
        ensures
            r.url == url,
            r.webpage == webpage,
            r.file == file,
            r.name == name,
            1 <= r.time.1 <= 12,
            1 <= r.time.2 <= 31,
            r.time.3 < 24,
            r.time.4 < 60,
            r.time.5 < 60,
    {
        HistorySession { url, webpage, file, name, time: local_now() }
    }

    pub fn duplicate(&self) -> (r: HistorySession)
        ensures
            r == *self,
    {
        HistorySession {
            url: self.url.clone(),
            webpage: self.webpage.clone(),
            file: self.file.clone(),
            name: self.name.clone(),
            time: self.time,
        }
    }

    pub fn get_url(&self) -> (r: String)
        ensures
            r@ == self.url@,
    {
        self.url.clone()
    }

    pub fn get_file(&self) -> (r: String)
        ensures
            r@ == self.file@,
    {
        self.file.clone()
    }

    pub fn get_name(&self) -> (r: String)
        ensures
            r@ == self.name@,
    {
        self.name.clone()
    }

    pub fn get_webpage(&self) -> (r: String)
        ensures
            r@ == self.webpage@,
    {
        self.webpage.clone()
    }

    /// When the record was made, as `year-month-day hour:minute:second`.
    pub fn get_time(&self) -> (r: String)
        ensures
            r@ == stamp_text(self.time),
    {
        proof {
            reveal_strlit("-");
            reveal_strlit(" ");
            reveal_strlit(":");
        }
        let mut r = String::new();
        push_signed_decimal(&mut r, self.time.0);
        r.append("-");
        push_decimal(&mut r, self.time.1 as u64);
        r.append("-");
        push_decimal(&mut r, self.time.2 as u64);
        r.append(" ");
        push_decimal(&mut r, self.time.3 as u64);
        r.append(":");
        push_decimal(&mut r, self.time.4 as u64);
        r.append(":");
        push_decimal(&mut r, self.time.5 as u64);
        assert(r@ =~= stamp_text(self.time));
        r
    }

    /// A fresh request for the recorded URL, to start the job again as a
    /// new session.
    pub fn resume(&self) -> (r: Info)
        ensures
            r.download_url@ == self.url@,
            r.webpage_url@.len() == 0,
            r.download_cookie@.len() == 0,
            r.download_referer@.len() == 0,
            r.download_id == 0,
            r.size == 0,
            !r.resume_state,
    {
        Info::with_download_url(self.url.clone())
    }
}

/// The record at `i` is kept under `uid`.
pub open spec fn key_at(e: Seq<(String, HistorySession)>, uid: Seq<char>, i: int) -> bool {
    0 <= i < e.len() && e[i].0@ == uid
}

pub open spec fn has_key(e: Seq<(String, HistorySession)>, uid: Seq<char>) -> bool {
    exists|i: int| key_at(e, uid, i)
}

/// No two records are kept under one identity.
pub open spec fn history_wf(e: Seq<(String, HistorySession)>) -> bool {
    forall|i: int, j: int|
        0 <= i < e.len() && 0 <= j < e.len() && i != j ==> #[trigger] e[i].0@ != #[trigger] e[j].0@
}

/// The history already keeps under `uid` a record of the same job as `rec`.
pub open spec fn kept_same(e: Seq<(String, HistorySession)>, uid: Seq<char>, rec: HistorySession) -> bool {
    exists|i: int| key_at(e, uid, i) && record_same(e[i].1, rec)
}

/// `t` is `e` with `rec` kept under `uid`: in place of the record that had
/// that identity, or after all others.
pub open spec fn put_step(
    e: Seq<(String, HistorySession)>,
    t: Seq<(String, HistorySession)>,
    uid: Seq<char>,
    rec: HistorySession,
) -> bool {
    &&& forall|i: int| key_at(e, uid, i) ==> t == e.update(i, t[i]) && t[i].0@ == uid && t[i].1 == rec
    &&& !has_key(e, uid) ==> t.len() == e.len() + 1 && t.subrange(0, e.len() as int) == e
        && t.last().0@ == uid && t.last().1 == rec
}

/// `t` and `written` are the history `e` and whether it needs writing out
/// after recording session `s`: nothing changes when the history already
/// keeps the same job under the session's identity, else a record of it
/// made now takes that identity's place.
pub open spec fn record_step(
    e: Seq<(String, HistorySession)>,
    t: Seq<(String, HistorySession)>,
    s: Session,
    written: bool,
) -> bool {
    &&& (exists|rec: HistorySession| projection_of(rec, s) && kept_same(e, s.uid@, rec)) ==> !written
        && t == e
    &&& !(exists|rec: HistorySession| projection_of(rec, s) && kept_same(e, s.uid@, rec)) ==> written
        && exists|rec: HistorySession| projection_of(rec, s) && put_step(e, t, s.uid@, rec)
}

/// Records are listed newest first, and records made at the same time by
/// URL, file and name, last first: no record comes before one that is
/// listed after it.
pub open spec fn newest_first(e: Seq<(String, HistorySession)>) -> bool {
    forall|a: int, b: int| 0 <= a < b < e.len() ==> !record_before(#[trigger] e[a].1, #[trigger] e[b].1)
}

/// Every job started, by local identity.
pub struct History {
    sessions: Vec<(String, HistorySession)>,
}

impl History {
    pub closed spec fn entries(&self) -> Seq<(String, HistorySession)> {
        self.sessions@
    }

    pub open spec fn wf(&self) -> bool {
        history_wf(self.entries())
    }

    /// An empty history.
    pub fn new() -> (r: History)
        ensures
            r.wf(),
            r.entries().len() == 0,
    {
        History { sessions: Vec::new() }
    }

    pub fn len(&self) -> (r: usize)
        ensures
            r == self.entries().len(),
    {
        self.sessions.len()
    }

    /// Where the record kept under `uid` stands.
    fn find(&self, uid: &String) -> (r: Option<usize>)
        ensures
            r matches Some(i) ==> key_at(self.entries(), uid@, i as int),
            r is None ==> !has_key(self.entries(), uid@),
    {
        let n = self.sessions.len();
        let mut i: usize = 0;
        while i < n
            invariant
                i <= n,
                n == self.sessions@.len(),
                forall|k: int| 0 <= k < i ==> self.sessions@[k].0@ != uid@,
            decreases n - i,
        {
            if self.sessions[i].0 == *uid {
                return Some(i);
            }
            i = i + 1;
        }
        None
    }

    /// Keeps `rec` under `uid`, in place of any record kept under it.
    pub fn put(&mut self, uid: String, rec: HistorySession)
        requires
            old(self).wf(),
        ensures
            final(self).wf(),
            put_step(old(self).entries(), final(self).entries(), uid@, rec),
    {
        let ghost key = uid@;
        match self.find(&uid) {
            Some(i) => {
                self.sessions.remove(i);
                self.sessions.insert(i, (uid, rec));
                assert(self.sessions@ =~= old(self).entries().update(i as int, self.sessions@[i as int]));
                assert forall|a: int, b: int|
                    0 <= a < self.sessions@.len() && 0 <= b < self.sessions@.len() && a != b implies
                    #[trigger] self.sessions@[a].0@ != #[trigger] self.sessions@[b].0@ by {
                    assert(self.sessions@[a].0@ == old(self).entries()[a].0@);
                    assert(self.sessions@[b].0@ == old(self).entries()[b].0@);
                }
            },
            None => {
                self.sessions.push((uid, rec));
                assert(self.sessions@.subrange(0, old(self).entries().len() as int) =~= old(self).entries());
                assert forall|a: int, b: int|
                    0 <= a < self.sessions@.len() && 0 <= b < self.sessions@.len() && a != b implies
                    #[trigger] self.sessions@[a].0@ != #[trigger] self.sessions@[b].0@ by {
                    if a == old(self).entries().len() {
                        assert(!key_at(old(self).entries(), key, b));
                    } else if b == old(self).entries().len() {
                        assert(!key_at(old(self).entries(), key, a));
                    }
                }
            },
        }
    }

    /// Records `session` unless the history already keeps the same job
    /// under its identity. The result says whether the history changed and
    /// needs writing out.
    pub fn add_session(&mut self, session: &Session) -> (written: bool)
        requires
            old(self).wf(),
        ensures
            final(self).wf(),
            record_step(old(self).entries(), final(self).entries(), *session, written),
    {
        let rec = HistorySession::new(
            session.get_url(),
            session.get_webpage(),
            session.get_file(),
            session.get_name(),
        );
        assert(projection_of(rec, *session));
        let uid = session.get_uid();
        match self.find(&uid) {
            Some(i) => {
                if self.sessions[i].1 == rec {
                    assert(kept_same(old(self).entries(), session.uid@, rec));
                    return false;
                }
                proof {
                    assert forall|other: HistorySession| projection_of(other, *session) implies !kept_same(
                        old(self).entries(),
                        session.uid@,
                        other,
                    ) by {
                        assert forall|j: int| key_at(old(self).entries(), session.uid@, j) implies j == i by {
                        }
                    }
                }
            },
            None => {},
        }
        self.put(uid, rec);
        true
    }

    /// Every record with its identity, newest first; records made at the
    /// same time come by URL, file and name, last first.
    pub fn get_sessions(&self) -> (r: Vec<(String, HistorySession)>)
        ensures
            r@.to_multiset() == self.entries().to_multiset(),
            newest_first(r@),
    {
        let mut out: Vec<(String, HistorySession)> = Vec::new();
        let n = self.sessions.len();
        let mut i: usize = 0;
        assert(self.sessions@.subrange(0, 0) =~= out@);
        while i < n
            invariant
                i <= n,
                n == self.sessions@.len(),
                out@.to_multiset() == self.sessions@.subrange(0, i as int).to_multiset(),
                newest_first(out@),
            decreases n - i,
        {
            let x = (self.sessions[i].0.clone(), self.sessions[i].1.duplicate());
            assert(x == self.sessions@[i as int]);
            let m = out.len();
            let mut k: usize = 0;
            while k < m && !record_before_exec(&out[k].1, &x.1)
                invariant
                    k <= m,
                    m == out@.len(),
                    forall|j: int| 0 <= j < k ==> !record_before(#[trigger] out@[j].1, x.1),
                decreases m - k,
            {
                k = k + 1;
            }
            let ghost before = out@;
            out.insert(k, x);
            assert(out@ == before.insert(k as int, x));
            assert(self.sessions@.subrange(0, i + 1) =~= self.sessions@.subrange(0, i as int).push(x));
            proof {
                to_multiset_insert(before, k as int, x);
                to_multiset_build(self.sessions@.subrange(0, i as int), x);
            }
            assert(out@.to_multiset() == before.to_multiset().insert(x));
            assert(self.sessions@.subrange(0, i as int).push(x).to_multiset()
                == self.sessions@.subrange(0, i as int).to_multiset().insert(x));
            assert forall|a: int, b: int| 0 <= a < b < out@.len() implies !record_before(
                #[trigger] out@[a].1,
                #[trigger] out@[b].1,
            ) by {
                if b < k {
                } else if b == k {
                } else if a < k {
                    assert(out@[b] == before[b - 1]);
                } else if a == k {
                    assert(out@[b] == before[b - 1]);
                    assert(record_before(before[k as int].1, x.1));
                    if b - 1 > k {
                        assert(!record_before(before[k as int].1, before[b - 1].1));
                    }
                    lemma_record_before_order(before[k as int].1, x.1, before[b - 1].1);
                    lemma_record_before_order(x.1, before[k as int].1, before[b - 1].1);
                } else {
                    assert(out@[a] == before[a - 1]);
                    assert(out@[b] == before[b - 1]);
                }
            }
            i = i + 1;
        }
        assert(self.sessions@.subrange(0, n as int) =~= self.sessions@);
        out
    }

    /// Forgets the record kept under `uid`. The result says whether there
    /// was one, and the history needs writing out.
    pub fn remove(&mut self, uid: &String) -> (written: bool)
        requires
            old(self).wf(),
        ensures
            final(self).wf(),
            !has_key(old(self).entries(), uid@) ==> !written && final(self).entries() == old(self).entries(),
            forall|i: int| key_at(old(self).entries(), uid@, i) ==> written && final(self).entries() == old(self).entries().remove(i),
    {
        match self.find(uid) {
            Some(i) => {
                self.sessions.remove(i);
                assert forall|a: int, b: int|
                    0 <= a < self.sessions@.len() && 0 <= b < self.sessions@.len() && a != b implies
                    #[trigger] self.sessions@[a].0@ != #[trigger] self.sessions@[b].0@ by {
                    let sa = if a < i { a } else { a + 1 };
                    let sb = if b < i { b } else { b + 1 };
                    assert(self.sessions@[a] == old(self).entries()[sa]);
                    assert(self.sessions@[b] == old(self).entries()[sb]);
                }
                true
            },
            None => false,
        }
    }
}

/// `a` comes strictly before `b`.
pub fn stamp_before_exec(a: &Stamp, b: &Stamp) -> (r: bool)
    ensures
        r == stamp_before(*a, *b),
{
    if a.0 != b.0 {
        a.0 < b.0
    } else if a.1 != b.1 {
        a.1 < b.1
    } else if a.2 != b.2 {
        a.2 < b.2
    } else if a.3 != b.3 {
        a.3 < b.3
    } else if a.4 != b.4 {
        a.4 < b.4
    } else {
        a.5 < b.5
    }
}

/// Two sessions that the history would record alike: the same identity
/// and the same URL, web page, first file and name.
pub open spec fn same_projection(s: Session, t: Session) -> bool {
    &&& s.uid@ == t.uid@
    &&& s.url@ == t.url@
    &&& s.webpage@ == t.webpage@
    &&& first_file(s) == first_file(t)
    &&& display_name(s) == display_name(t)
}

/// Recording twice writes at most once: after any recording, recording a
/// session with the same identity and projection changes nothing and asks
/// for no write.
pub proof fn lemma_record_idempotent(
    e0: Seq<(String, HistorySession)>,
    e1: Seq<(String, HistorySession)>,
    e2: Seq<(String, HistorySession)>,
    s: Session,
    t: Session,
    w1: bool,
    w2: bool,
)
    requires
        history_wf(e0),
        same_projection(s, t),
        record_step(e0, e1, s, w1),
        record_step(e1, e2, t, w2),
    ensures
        !w2,
        e2 == e1,
{
    let rec = if w1 {
        choose|rec: HistorySession| projection_of(rec, s) && put_step(e0, e1, s.uid@, rec)
    } else {
        choose|rec: HistorySession| projection_of(rec, s) && kept_same(e0, s.uid@, rec)
    };
    if w1 {
        if has_key(e0, s.uid@) {
            let i = choose|i: int| key_at(e0, s.uid@, i);
            assert(key_at(e1, s.uid@, i) && record_same(e1[i].1, rec));
        } else {
            let i = e0.len() as int;
            assert(e1[i] == e1.last());
            assert(key_at(e1, s.uid@, i) && record_same(e1[i].1, rec));
        }
    }
    assert(projection_of(rec, t) && kept_same(e1, t.uid@, rec));
}

/// Recording a run of sessions with one identity and projection writes at
/// most once, on the first call: every later call changes nothing and asks
/// for no write.
pub proof fn lemma_record_run(
    hs: Seq<Seq<(String, HistorySession)>>,
    ss: Seq<Session>,
    ws: Seq<bool>,
)
    requires
        ss.len() >= 1,
        hs.len() == ss.len() + 1,
        ws.len() == ss.len(),
        history_wf(hs[0]),
        forall|i: int| 0 <= i < ss.len() ==> same_projection(ss[0], #[trigger] ss[i]),
        forall|i: int| 0 <= i < ss.len() ==> record_step(hs[i], hs[i + 1], ss[i], #[trigger] ws[i]),
    ensures
        forall|i: int| 1 <= i < ss.len() ==> !#[trigger] ws[i] && hs[i + 1] == hs[1],
    decreases ss.len(),
{
    if ss.len() > 1 {
        let n = ss.len() - 1;
        let (hp, sp, wp) = (hs.drop_last(), ss.drop_last(), ws.drop_last());
        lemma_record_run(hp, sp, wp);
        assert forall|i: int| 1 <= i < n implies !#[trigger] ws[i] && hs[i + 1] == hs[1] by {
            assert(wp[i] == ws[i]);
            assert(hp[i + 1] == hs[i + 1]);
            assert(hp[1] == hs[1]);
        }
        assert(record_step(hs[n - 1], hs[n], ss[n - 1], ws[n - 1]));
        assert(record_step(hs[n], hs[n + 1], ss[n], ws[n]));
        if n == 1 {
            lemma_record_idempotent(hs[0], hs[1], hs[2], ss[0], ss[1], ws[0], ws[1]);
        } else {
            assert(!ws[n - 1] && hs[n] == hs[1]);
            assert(record_step(hs[0], hs[1], ss[0], ws[0]));
            assert(record_step(hs[1], hs[2], ss[1], ws[1]));
            lemma_record_idempotent(hs[0], hs[1], hs[n + 1], ss[0], ss[n], ws[0], ws[n]);
        }
    }
}

} // verus!
