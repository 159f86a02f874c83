//! The route table of the service, which routes the guard guards, and where a
//! request goes.
//!
//! Each route says itself whether it is protected. `gate_existing` guards
//! every route added so far, as attaching a route layer does, so a table can
//! still be written in that order: protected routes, the guard, public routes.
use vstd::prelude::*;
use crate::codec::{issued_token, Claims, Keys};
use crate::gate::{gate_verdict, header_text, header_token, pass_gate, GateError};

verus! {

#[derive(Clone, Copy, Debug, PartialEq, Eq, Structural)]
pub enum Method {
    Get,
    Post,
    Put,
    Patch,
    Delete,
}

/// One route: a method and a path pattern, whose segments are literal text
/// or a parameter (`:name`, one non-empty segment).
#[derive(Clone, Debug)]
pub struct Route {
    pub method: Method,
    pub pattern: String,
    pub protected: bool,
}

/// Routes in the order they were added; a request goes to the first that
/// matches it.
pub struct RouteTable {
    pub routes: Vec<Route>,
}

/// Where a request goes.
#[derive(Clone, Copy, Debug, PartialEq, Eq, Structural)]
pub enum Dispatch {
    /// No route matches: the fallback answers "not found".
    NotFound,
    /// The route is protected and the guard turned the request away.
    Refused(GateError),
    /// The route at this index handles the request; `subject` is the caller
    /// where the guard checked one.
    Serve { route: usize, subject: Option<u128> },
}

/// The end of the segment that starts at `i`: the next `/` or the end.
pub open spec fn seg_end(s: Seq<char>, i: int) -> int
    decreases s.len() - i,
{
    if i < 0 || i >= s.len() || s[i] == '/' {
        i
    } else {
        seg_end(s, i + 1)
    }
}

/// Whether the pattern from `i` on matches the path from `j` on.
pub open spec fn matches_from(pat: Seq<char>, i: int, path: Seq<char>, j: int) -> bool
    decreases pat.len() - i,
{
    if i < 0 || i >= pat.len() {
        j == path.len()
    } else if pat[i] == ':' {
        let pe = seg_end(pat, i + 1);
        let qe = seg_end(path, j);
        if pe <= i || pe > pat.len() {
            false
        } else {
            0 <= j < qe && matches_from(pat, pe, path, qe)
        }
    } else {
        0 <= j < path.len() && path[j] == pat[i] && matches_from(pat, i + 1, path, j + 1)
    }
}

pub open spec fn route_matches(r: Route, method: Method, path: Seq<char>) -> bool {
    r.method == method && matches_from(r.pattern@, 0, path, 0)
}

/// The first route from index `k` on that matches.
pub open spec fn first_match(rs: Seq<Route>, method: Method, path: Seq<char>, k: int) -> Option<int>
    decreases rs.len() - k,
{
    if k < 0 || k >= rs.len() {
        None
    } else if route_matches(rs[k], method, path) {
        Some(k)
    } else {
        first_match(rs, method, path, k + 1)
    }
}

proof fn lemma_first_match_in_table(rs: Seq<Route>, method: Method, path: Seq<char>, k: int)
    ensures
        first_match(rs, method, path, k) matches Some(i) ==> k <= i < rs.len() && route_matches(
            rs[i],
            method,
            path,
        ),
    decreases rs.len() - k,
{
    if 0 <= k < rs.len() && !route_matches(rs[k], method, path) {
        lemma_first_match_in_table(rs, method, path, k + 1);
    }
}

/// Where a request goes, given the table, the shared secret and the time.
pub open spec fn dispatch_spec(
    rs: Seq<Route>,
    secret: Seq<u8>,
    method: Method,
    path: Seq<char>,
    header: Option<Seq<char>>,
    now: u64,
) -> Dispatch {
    match first_match(rs, method, path, 0) {
        None => Dispatch::NotFound,
        Some(i) => if rs[i].protected {
            match gate_verdict(secret, header, now) {
                Ok(sub) => Dispatch::Serve { route: i as usize, subject: Some(sub) },
                Err(e) => Dispatch::Refused(e),
            }
        } else {
            Dispatch::Serve { route: i as usize, subject: None }
        },
    }
}

/// Where a request goes when the guard, if it runs, finds `subject`.
pub open spec fn served_as(rs: Seq<Route>, method: Method, path: Seq<char>, subject: u128) -> Dispatch {
    match first_match(rs, method, path, 0) {
        None => Dispatch::NotFound,
        Some(i) => Dispatch::Serve {
            route: i as usize,
            subject: if rs[i].protected {
                Some(subject)
            } else {
                None
            },
        },
    }
}

fn segment_end(s: &str, from: usize) -> (r: usize)
    requires
        from <= s@.len(),
    ensures
        r == seg_end(s@, from as int),
        from <= r <= s@.len(),
{
    let len = s.unicode_len();
    let mut k = from;
    while k < len && s.get_char(k) != '/'
        invariant
            len == s@.len(),
            from <= k <= len,
            seg_end(s@, k as int) == seg_end(s@, from as int),
        decreases len - k,
    {
        k = k + 1;
    }
    k
}

/// Whether the path pattern `pat` matches the request path `path`.
pub fn matches_path(pat: &str, path: &str) -> (r: bool)
    ensures
        r == matches_from(pat@, 0, path@, 0),
{
    let pn = pat.unicode_len();
    let qn = path.unicode_len();
    let mut i: usize = 0;
    let mut j: usize = 0;
    while i < pn
        invariant
            pn == pat@.len(),
            qn == path@.len(),
            i <= pn,
            j <= qn,
            matches_from(pat@, 0, path@, 0) == matches_from(pat@, i as int, path@, j as int),
        decreases pn - i,
    {
        let c = pat.get_char(i);
        if c == ':' {
            let pe = segment_end(pat, i + 1);
            let qe = segment_end(path, j);
            if j >= qe {
                return false;
            }
            i = pe;
            j = qe;
        } else {
            if j >= qn || path.get_char(j) != c {
                return false;
            }
            i = i + 1;
            j = j + 1;
        }
    }
    j == qn
}

impl RouteTable {
    pub fn new() -> (r: RouteTable)
        ensures
            r.routes@.len() == 0,
    {
        RouteTable { routes: Vec::new() }
    }

    /// Adds a route that anyone may call.
    pub fn route(&mut self, method: Method, pattern: &str)
        ensures
            final(self).routes@.len() == old(self).routes@.len() + 1,
            forall|i: int| 0 <= i < old(self).routes@.len() ==> final(self).routes@[i] == old(self).routes@[i],
            final(self).routes@.last().method == method,
            final(self).routes@.last().pattern@ == pattern@,
            !final(self).routes@.last().protected,
    {
        self.routes.push(Route { method, pattern: String::from_str(pattern), protected: false });
    }

    /// Adds a route behind the guard.
    pub fn protected_route(&mut self, method: Method, pattern: &str)
        ensures
            final(self).routes@.len() == old(self).routes@.len() + 1,
            forall|i: int| 0 <= i < old(self).routes@.len() ==> final(self).routes@[i] == old(self).routes@[i],
            final(self).routes@.last().method == method,
            final(self).routes@.last().pattern@ == pattern@,
            final(self).routes@.last().protected,
    {
        self.routes.push(Route { method, pattern: String::from_str(pattern), protected: true });
    }

    /// Puts every route added so far behind the guard; routes added later are
    /// not affected.
    pub fn gate_existing(&mut self)
        ensures
            final(self).routes@.len() == old(self).routes@.len(),
            forall|i: int|
                0 <= i < old(self).routes@.len() ==> {
                    &&& final(self).routes@[i].method == old(self).routes@[i].method
                    &&& final(self).routes@[i].pattern@ == old(self).routes@[i].pattern@
                    &&& final(self).routes@[i].protected
                },
    {
        let n = self.routes.len();
        let mut guarded: Vec<Route> = Vec::new();
        let mut i: usize = 0;
        while i < n
            invariant
                n == self.routes@.len(),
                self.routes@ == old(self).routes@,
                i <= n,
                guarded@.len() == i,
                forall|k: int|
                    0 <= k < i ==> {
                        &&& guarded@[k].method == self.routes@[k].method
                        &&& guarded@[k].pattern@ == self.routes@[k].pattern@
                        &&& guarded@[k].protected
                    },
            decreases n - i,
        {
            let r = &self.routes[i];
            guarded.push(Route { method: r.method, pattern: r.pattern.clone(), protected: true });
            i = i + 1;
        }
        self.routes = guarded;
    }

    /// The index of the first route that matches the request.
    pub fn find(&self, method: Method, path: &str) -> (r: Option<usize>)
        ensures
            match r {
                Some(k) => first_match(self.routes@, method, path@, 0) == Some(k as int),
                None => first_match(self.routes@, method, path@, 0) is None,
            },
    {
        let n = self.routes.len();
        let mut i: usize = 0;
        while i < n
            invariant
                n == self.routes@.len(),
                i <= n,
                first_match(self.routes@, method, path@, 0) == first_match(
                    self.routes@,
                    method,
                    path@,
                    i as int,
                ),
            decreases n - i,
        {
            let r = &self.routes[i];
            if r.method == method && matches_path(r.pattern.as_str(), path) {
                return Some(i);
            }
            i = i + 1;
        }
        None
    }

    /// Where a request goes: the first matching route, through the guard
    /// where that route is protected.
    pub fn dispatch(&self, keys: &Keys, method: Method, path: &str, header: Option<&str>, now: u64) -> (r: Dispatch)
        ensures
            r == dispatch_spec(self.routes@, keys.secret@, method, path@, header_text(header), now),
            forall|c: Claims|
                header_token(header_text(header)) == Some(issued_token(keys.secret@, c)) && now < c.exp
                    ==> r == served_as(self.routes@, method, path@, c.sub),
    {
        proof {
            lemma_first_match_in_table(self.routes@, method, path@, 0);
        }
        match self.find(method, path) {
            None => Dispatch::NotFound,
            Some(i) => {
                if self.routes[i].protected {
                    match pass_gate(keys, header, now) {
                        Ok(sub) => Dispatch::Serve { route: i, subject: Some(sub) },
                        Err(e) => Dispatch::Refused(e),
                    }
                } else {
                    Dispatch::Serve { route: i, subject: None }
                }
            },
        }
    }
}

/// The service's table: the user, pizza and image routes and the root behind
/// the guard, then the login route (`POST /authorize`), which anyone may call.
pub fn service_routes() -> (r: RouteTable)
    ensures
        r.routes@.len() == 13,
        r.routes@[0].method == Method::Get && r.routes@[0].pattern@ == "/"@ && r.routes@[0].protected,
        r.routes@[1].method == Method::Get && r.routes@[1].pattern@ == "/users"@ && r.routes@[1].protected,
        r.routes@[2].method == Method::Post && r.routes@[2].pattern@ == "/users"@ && r.routes@[2].protected,
        r.routes@[3].method == Method::Get && r.routes@[3].pattern@ == "/users/:id"@ && r.routes@[3].protected,
        r.routes@[4].method == Method::Put && r.routes@[4].pattern@ == "/users/:id"@ && r.routes@[4].protected,
        r.routes@[5].method == Method::Get && r.routes@[5].pattern@ == "/users/search/:username"@ && r.routes@[5].protected,
        r.routes@[6].method == Method::Get && r.routes@[6].pattern@ == "/pizza"@ && r.routes@[6].protected,
        r.routes@[7].method == Method::Post && r.routes@[7].pattern@ == "/pizza"@ && r.routes@[7].protected,
        r.routes@[8].method == Method::Get && r.routes@[8].pattern@ == "/pizza/:id"@ && r.routes@[8].protected,
        r.routes@[9].method == Method::Put && r.routes@[9].pattern@ == "/pizza/:id"@ && r.routes@[9].protected,
        r.routes@[10].method == Method::Delete && r.routes@[10].pattern@ == "/pizza/:id"@ && r.routes@[10].protected,
        r.routes@[11].method == Method::Get && r.routes@[11].pattern@ == "/image/:name"@ && r.routes@[11].protected,
        r.routes@[12].method == Method::Post && r.routes@[12].pattern@ == "/authorize"@ && !r.routes@[12].protected,
{
    let mut t = RouteTable::new();
    t.route(Method::Get, "/");
    t.route(Method::Get, "/users");
    t.route(Method::Post, "/users");
    t.route(Method::Get, "/users/:id");
    t.route(Method::Put, "/users/:id");
    t.route(Method::Get, "/users/search/:username");
    t.route(Method::Get, "/pizza");
    t.route(Method::Post, "/pizza");
    t.route(Method::Get, "/pizza/:id");
    t.route(Method::Put, "/pizza/:id");
    t.route(Method::Delete, "/pizza/:id");
    t.route(Method::Get, "/image/:name");
    t.gate_existing();
    t.route(Method::Post, "/authorize");
    t
}

} // verus!
