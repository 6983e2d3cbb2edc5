//! Job requests that external producers deposit, and the out-of-band
//! quit and focus flags that come with them.

use vstd::prelude::*;

verus! {

/// A browser cookie as the extension reports it.
pub struct Cookie {
    pub domain: String,
    pub host_only: bool,
    pub http_only: bool,
    pub name: String,
    pub path: String,
    pub same_site: String,
    pub secure: bool,
    pub session: bool,
    pub store_id: String,
    pub value: String,
}

/// The `name=value` pair that a cookie header carries for this cookie.
pub open spec fn cookie_pair(c: Cookie) -> Seq<char> {
    c.name@ + "="@ + c.value@
}

impl Cookie {
    /// The cookie as `name=value`.
    pub fn to_string(&self) -> (r: String)
        ensures
            r@ == cookie_pair(*self),
    {
        let mut r = self.name.clone();
        r.append("=");
        r.append(self.value.as_str());
        r
    }

    pub fn duplicate(&self) -> (r: Cookie)
        ensures
            r == *self,
    {
        Cookie {
            domain: self.domain.clone(),
            host_only: self.host_only,
            http_only: self.http_only,
            name: self.name.clone(),
            path: self.path.clone(),
            same_site: self.same_site.clone(),
            secure: self.secure,
            session: self.session,
            store_id: self.store_id.clone(),
            value: self.value.clone(),
        }
    }
}

/// A request for a new job.
pub struct Info {
    pub download_id: usize,
    pub size: usize,
    pub webpage_url: String,
    pub download_url: String,
    pub resume_state: bool,
    pub download_cookie: Vec<Cookie>,
    pub download_referer: String,
}

impl Info {
    /// A request that names only the URL to fetch.
    pub fn with_download_url(url: String) -> (r: Info)
        ensures
            r.download_id == 0,
            r.size == 0,
            r.webpage_url@ == Seq::<char>::empty(),
            r.download_url@ == url@,
            !r.resume_state,
            r.download_cookie@.len() == 0,
            r.download_referer@ == Seq::<char>::empty(),
    {
        Info {
            download_id: 0,
            size: 0,
            webpage_url: String::new(),
            download_url: url,
            resume_state: false,
            download_cookie: Vec::new(),
            download_referer: String::new(),
        }
    }
}

/// The shared inbox: requests waiting to be started, and the quit and
/// focus flags, of which at most one pending request each is meaningful.
pub struct JobIntake {
    pub waiting: Vec<Info>,
    pub quit_request: bool,
    pub focus_request: bool,
}

impl JobIntake {
    pub fn new() -> (r: JobIntake)
        ensures
            r.waiting@.len() == 0,
            !r.quit_request,
            !r.focus_request,
    {
        JobIntake { waiting: Vec::new(), quit_request: false, focus_request: false }
    }

    /// Appends a request behind those already waiting.
    pub fn add_wait_to_start(&mut self, data: Info)
        ensures
            final(self).waiting@ == old(self).waiting@.push(data),
            final(self).quit_request == old(self).quit_request,
            final(self).focus_request == old(self).focus_request,
    {
        self.waiting.push(data);
    }

    /// Hands out every waiting request, oldest first, and leaves none behind.
    pub fn take_wait_to_start(&mut self) -> (r: Vec<Info>)
        ensures
            r@ == old(self).waiting@,
            final(self).waiting@.len() == 0,
            final(self).quit_request == old(self).quit_request,
            final(self).focus_request == old(self).focus_request,
    {
        let mut taken = Vec::new();
        std::mem::swap(&mut self.waiting, &mut taken);
        taken
    }

    pub fn get_quit_request(&self) -> (r: bool)
        ensures
            r == self.quit_request,
    {
        self.quit_request
    }

    pub fn set_quit_request(&mut self, q: bool)
        ensures
            final(self).quit_request == q,
            final(self).focus_request == old(self).focus_request,
            final(self).waiting@ == old(self).waiting@,
    {
        self.quit_request = q;
    }

    pub fn get_focus_request(&self) -> (r: bool)
        ensures
            r == self.focus_request,
    {
        self.focus_request
    }

    pub fn set_focus_request(&mut self, f: bool)
        ensures
            final(self).focus_request == f,
            final(self).quit_request == old(self).quit_request,
            final(self).waiting@ == old(self).waiting@,
    {
        self.focus_request = f;
    }
}

} // verus!
