use crate::text::{
    chars_end_with, chars_eq, chars_of, chars_start_with, ends_with, is_white_space,
    lemma_signed_decimal, lemma_split_on_concat, lemma_split_on_cons, lemma_split_on_nonempty,
    lemma_split_on_single, lemma_trim_noop,
    parse_i64, parse_i64_chars, push_signed_decimal, signed_decimal, split_chars, split_on,
    starts_with, str_eq, string_of_chars, trim, trim_chars,
};
use vstd::prelude::*;

verus! {

/// What a cookie holds. The expiry time is in seconds since the Unix epoch.
pub struct CookieView {
    pub name: Seq<char>,
    pub value: Seq<char>,
    pub subdomains: bool,
    pub path: Seq<char>,
    pub http_only: bool,
    pub expired: Option<i64>,
    pub domain: Seq<char>,
}

/// Cookies structure
#[derive(Clone, Debug)]
pub struct Cookie {
    /// Cookie's name
    name: String,
    /// Cookie's value
    value: String,
    /// Whether to include subdomains
    subdomains: bool,
    /// Cookie's Path
    path: String,
    /// HTTP only
    http_only: bool,
    /// Expired time, in seconds since the Unix epoch
    expired: Option<i64>,
    /// Domain name
    domain: String,
}

impl View for Cookie {
    type V = CookieView;

    closed spec fn view(&self) -> CookieView {
        CookieView {
            name: self.name@,
            value: self.value@,
            subdomains: self.subdomains,
            path: self.path@,
            http_only: self.http_only,
            expired: self.expired,
            domain: self.domain@,
        }
    }
}

/// Whether a cookie that expires at `expired` has expired at the moment
/// `now_secs` seconds and `now_nanos` nanoseconds after the Unix epoch:
/// the moment is after the expiry.
pub open spec fn expired_at(expired: Option<i64>, now_secs: i64, now_nanos: u32) -> bool {
    match expired {
        Some(t) => now_secs > t || (now_secs == t && now_nanos > 0),
        None => false,
    }
}

/// Whether a cookie is sent to a host and path.
pub open spec fn cookie_matches(c: CookieView, host: Seq<char>, path: Seq<char>) -> bool {
    let subdomain = c.subdomains || starts_with(c.domain, seq!['.']);
    let domain = if subdomain && !starts_with(c.domain, seq!['.']) {
        seq!['.'] + c.domain
    } else {
        c.domain
    };
    &&& subdomain ==> (ends_with(host, domain) || host == domain.skip(1))
    &&& !subdomain ==> host == domain
    &&& starts_with(path, c.path)
}

/// Whether a cookie is sent to a URL at a moment: the URL parses with a
/// host, and the cookie has not expired and matches its host and path.
pub open spec fn matched_url_at(c: CookieView, url: Seq<char>, now_secs: i64, now_nanos: u32) -> bool {
    match url_host_and_path(url) {
        Some((h, p)) => !expired_at(c.expired, now_secs, now_nanos) && cookie_matches(c, h, p),
        None => false,
    }
}

/// `TRUE` or `FALSE`, as a Netscape cookie file writes a flag.
pub open spec fn netscape_flag(b: bool) -> Seq<char> {
    if b {
        seq!['T', 'R', 'U', 'E']
    } else {
        seq!['F', 'A', 'L', 'S', 'E']
    }
}

/// The expiry time a cookie file records: 0 when the cookie does not expire.
pub open spec fn expired_time_of(expired: Option<i64>) -> i64 {
    match expired {
        Some(t) => t,
        None => 0,
    }
}

/// The line of a Netscape cookie file for a cookie, without its line break:
/// seven fields separated by tabs.
pub open spec fn cookie_line(c: CookieView) -> Seq<char> {
    c.domain + seq!['\t'] + netscape_flag(c.subdomains) + seq!['\t'] + c.path + seq!['\t']
        + netscape_flag(c.http_only) + seq!['\t'] + signed_decimal(expired_time_of(c.expired) as int)
        + seq!['\t'] + c.name + seq!['\t'] + c.value
}

/// The line of a Netscape cookie file for a cookie, with its line break.
pub open spec fn netscape_line(c: CookieView) -> Seq<char> {
    cookie_line(c) + seq!['\n']
}

/// The host and path of a URL, as the `url` crate parses it; `None` when it
/// does not parse or has no host.
pub uninterp spec fn url_host_and_path(url: Seq<char>) -> Option<(Seq<char>, Seq<char>)>;

/// `url::Url::parse`, then the URL's `host_str` and `path`. A URL without a
/// host is refused, as `reqwest`'s `IntoUrl` refuses it.
#[verifier::external_body]
pub(crate) fn parse_url(url: &str) -> (r: Option<(String, String)>)
    ensures
        match r {
            Some((h, p)) => url_host_and_path(url@) == Some((h@, p@)),
            None => url_host_and_path(url@) is None,
        },
{
    match url::Url::parse(url) {
        Ok(u) => match u.host_str() {
            Some(h) => Some((h.to_string(), u.path().to_string())),
            None => None,
        },
        Err(_) => None,
    }
}

/// `chrono::Utc::now()`: the seconds and nanoseconds since the Unix epoch.
/// Nothing is known of the result: it is the time of the call.
#[verifier::external_body]
pub(crate) fn now_timestamp() -> (r: (i64, u32)) {
    let now = chrono::Utc::now();
    (now.timestamp(), now.timestamp_subsec_nanos())
}

fn push_flag(out: &mut String, b: bool)
    ensures
        final(out)@ == old(out)@ + netscape_flag(b),
{
    proof {
        reveal_strlit("TRUE");
        reveal_strlit("FALSE");
    }
    if b {
        out.append("TRUE");
    } else {
        out.append("FALSE");
    }
}

impl Cookie {
    pub fn new(
        name: &str,
        value: &str,
        domain: &str,
        subdomains: bool,
        path: &str,
        http_only: bool,
        expired: Option<i64>,
    ) -> (r: Self)
        ensures
            r@ == (CookieView {
                name: name@,
                value: value@,
                subdomains,
                path: path@,
                http_only,
                expired,
                domain: domain@,
            }),
    {
        Self {
            name: String::from_str(name),
            value: String::from_str(value),
            subdomains: subdomains,
            path: String::from_str(path),
            http_only: http_only,
            expired: expired,
            domain: String::from_str(domain),
        }
    }

    /// A cookie with the same fields.
    pub fn duplicate(&self) -> (r: Self)
        ensures
            r@ == self@,
    {
        Self {
            name: self.name.clone(),
            value: self.value.clone(),
            subdomains: self.subdomains,
            path: self.path.clone(),
            http_only: self.http_only,
            expired: self.expired,
            domain: self.domain.clone(),
        }
    }

    /// Cookie's name
    pub fn name(&self) -> (r: &String)
        ensures
            r@ == self@.name,
    {
        &self.name
    }

    /// Cookie's value
    pub fn value(&self) -> (r: &String)
        ensures
            r@ == self@.value,
    {
        &self.value
    }

    /// Domain name
    pub fn domain(&self) -> (r: &String)
        ensures
            r@ == self@.domain,
    {
        &self.domain
    }

    /// Cookie's path
    pub fn path(&self) -> (r: &String)
        ensures
            r@ == self@.path,
    {
        &self.path
    }

    /// Get name and value string: name=value;
    pub fn get_name_value(&self) -> (r: String)
        ensures
            r@ == self@.name + seq!['='] + self@.value + seq![';'],
    {
        proof {
            reveal_strlit("=");
            reveal_strlit(";");
        }
        let mut s = self.name.clone();
        s.append("=");
        s.append(self.value.as_str());
        s.append(";");
        s
    }

    /// Whether the cookie has expired at the given moment.
    pub fn is_expired_at(&self, now_secs: i64, now_nanos: u32) -> (r: bool)
        ensures
            r == expired_at(self@.expired, now_secs, now_nanos),
    {
        match self.expired {
            Some(t) => now_secs > t || (now_secs == t && now_nanos > 0),
            None => false,
        }
    }

    /// Whether the cookie has expired now. A cookie without an expiry time
    /// never expires.
    pub fn is_expired(&self) -> (r: bool)
        ensures
            exists|s: i64, n: u32| r == expired_at(self@.expired, s, n),
            self@.expired is None ==> !r,
    {
        let (s, n) = now_timestamp();
        self.is_expired_at(s, n)
    }

    pub fn is_same_key(&self, other: &Self) -> (r: bool)
        ensures
            r == (self@.name == other@.name && self@.domain == other@.domain),
    {
        self.name == other.name && self.domain == other.domain
    }

    /// Check if a host and path are matched, at the given moment.
    pub fn matched_at(&self, host: &str, path: &str, now_secs: i64, now_nanos: u32) -> (r: bool)
        ensures
            r == (!expired_at(self@.expired, now_secs, now_nanos) && cookie_matches(
                self@,
                host@,
                path@,
            )),
            r ==> path@.len() >= self@.path.len() && path@.subrange(0, self@.path.len() as int)
                == self@.path,
            r && !self@.subdomains && !(self@.domain.len() > 0 && self@.domain[0] == '.') ==> host@
                == self@.domain,
    {
        if self.is_expired_at(now_secs, now_nanos) {
            return false;
        }
        let host = chars_of(host);
        let own = chars_of(self.domain.as_str());
        let dot: Vec<char> = vec!['.'];
        let starts_dot = chars_start_with(&own, &dot);
        let subdomain = self.subdomains || starts_dot;
        let mut domain: Vec<char> = own.clone();
        if subdomain && !starts_dot {
            domain = vec!['.'];
            let mut i: usize = 0;
            while i < own.len()
                invariant
                    i <= own@.len(),
                    domain@ == seq!['.'] + own@.take(i as int),
                decreases own@.len() - i,
            {
                domain.push(own[i]);
                assert(own@.take(i + 1) =~= own@.take(i as int).push(own@[i as int]));
                i = i + 1;
            }
            assert(own@.take(own@.len() as int) =~= own@);
        }
        assert(dot@ =~= seq!['.']);
        if subdomain {
            let mut tail: Vec<char> = Vec::new();
            let mut i: usize = 1;
            while i < domain.len()
                invariant
                    1 <= i,
                    i <= domain@.len() || domain@.len() == 0,
                    tail@ == domain@.subrange(1, i as int),
                decreases domain@.len() - i,
            {
                tail.push(domain[i]);
                assert(domain@.subrange(1, i + 1) =~= domain@.subrange(1, i as int).push(
                    domain@[i as int],
                ));
                i = i + 1;
            }
            assert(tail@ =~= domain@.skip(1));
            if !chars_end_with(&host, &domain) && !chars_eq(&host, &tail) {
                return false;
            }
        } else {
            if !chars_eq(&host, &domain) {
                return false;
            }
        }
        let own_path = chars_of(self.path.as_str());
        let path = chars_of(path);
        chars_start_with(&path, &own_path)
    }

    /// Check if url is matched
    /// * `url` - URL
    ///
    /// Never matches a URL that does not parse or has no host. A cookie that
    /// never expires matches exactly the URLs whose host and path match it.
    pub fn matched(&self, url: &str) -> (r: bool)
        ensures
            exists|s: i64, n: u32| r == #[trigger] matched_url_at(self@, url@, s, n),
            self@.expired is None ==> (r == (url_host_and_path(url@) matches Some((h, p))
                && cookie_matches(self@, h, p))),
            r ==> (url_host_and_path(url@) matches Some((h, p)) && p.len() >= self@.path.len()
                && p.subrange(0, self@.path.len() as int) == self@.path),
    {
        let (host, path) = match parse_url(url) {
            Some(hp) => hp,
            None => {
                assert(!matched_url_at(self@, url@, 0, 0));
                return false;
            },
        };
        let (s, n) = now_timestamp();
        let r = self.matched_at(host.as_str(), path.as_str(), s, n);
        assert(r == matched_url_at(self@, url@, s, n));
        r
    }

    /// The expiry time, or 0 when the cookie does not expire.
    pub fn expired_time(&self) -> (r: i64)
        ensures
            r == expired_time_of(self@.expired),
    {
        match self.expired {
            Some(k) => k,
            None => 0,
        }
    }

    /// The line of a Netscape cookie file for this cookie.
    pub fn to_netscape_str(&self) -> (r: String)
        ensures
            r@ == netscape_line(self@),
    {
        proof {
            reveal_strlit("\t");
            reveal_strlit("\n");
        }
        let mut s = self.domain.clone();
        s.append("\t");
        push_flag(&mut s, self.subdomains);
        s.append("\t");
        s.append(self.path.as_str());
        s.append("\t");
        push_flag(&mut s, self.http_only);
        s.append("\t");
        push_signed_decimal(&mut s, self.expired_time());
        s.append("\t");
        s.append(self.name.as_str());
        s.append("\t");
        s.append(self.value.as_str());
        s.append("\n");
        s
    }
}

/// Whether two cookies have the same name and domain.
pub open spec fn same_key(a: CookieView, b: CookieView) -> bool {
    a.name == b.name && a.domain == b.domain
}

/// Whether `i` is the first index of a cookie with the key of `c`.
pub open spec fn is_first_key_index(cs: Seq<CookieView>, c: CookieView, i: int) -> bool {
    &&& 0 <= i < cs.len()
    &&& same_key(cs[i], c)
    &&& forall|j: int| 0 <= j < i ==> !same_key(#[trigger] cs[j], c)
}

/// The cookies after adding a cookie: it replaces the first cookie with the
/// same name and domain, or comes last if there is none.
pub open spec fn jar_add(cs: Seq<CookieView>, c: CookieView) -> Seq<CookieView> {
    if exists|i: int| is_first_key_index(cs, c, i) {
        cs.update(choose|i: int| is_first_key_index(cs, c, i), c)
    } else {
        cs.push(c)
    }
}

/// Whether `i` is the first index of a cookie named `name`.
pub open spec fn is_first_named(cs: Seq<CookieView>, name: Seq<char>, i: int) -> bool {
    &&& 0 <= i < cs.len()
    &&& cs[i].name == name
    &&& forall|j: int| 0 <= j < i ==> (#[trigger] cs[j]).name != name
}

/// The cookies that have not expired at a moment, in their order.
pub open spec fn unexpired(cs: Seq<CookieView>, now_secs: i64, now_nanos: u32) -> Seq<CookieView> {
    cs.filter(|c: CookieView| !expired_at(c.expired, now_secs, now_nanos))
}

/// The Netscape cookie file text of cookies: one line each, in order.
pub open spec fn netscape_text(cs: Seq<CookieView>) -> Seq<char>
    decreases cs.len(),
{
    if cs.len() == 0 {
        seq![]
    } else {
        netscape_text(cs.drop_last()) + netscape_line(cs.last())
    }
}

/// Whether no two cookies have the same name and domain.
pub open spec fn keys_unique(cs: Seq<CookieView>) -> bool {
    forall|i: int, j: int|
        0 <= i < cs.len() && 0 <= j < cs.len() && i != j ==> !same_key(#[trigger] cs[i], #[trigger] cs[j])
}

/// Cookies Jar
#[derive(Debug)]
pub struct CookieJar {
    cookies: Vec<Cookie>,
}

impl View for CookieJar {
    type V = Seq<CookieView>;

    closed spec fn view(&self) -> Seq<CookieView> {
        self.cookies@.map_values(|c: Cookie| c@)
    }
}

/// Removing cookies keeps the keys distinct.
proof fn lemma_unexpired_keys_unique(cs: Seq<CookieView>, now_secs: i64, now_nanos: u32)
    requires
        keys_unique(cs),
    ensures
        keys_unique(unexpired(cs, now_secs, now_nanos)),
    decreases cs.len(),
{
    let pred = |c: CookieView| !expired_at(c.expired, now_secs, now_nanos);
    if cs.len() > 0 {
        let p = cs.drop_last();
        assert(keys_unique(p)) by {
            assert forall|i: int, j: int|
                0 <= i < p.len() && 0 <= j < p.len() && i != j implies !same_key(
                #[trigger] p[i],
                #[trigger] p[j],
            ) by {
                assert(p[i] == cs[i] && p[j] == cs[j]);
            }
        }
        lemma_unexpired_keys_unique(p, now_secs, now_nanos);
        reveal_with_fuel(Seq::filter, 1);
        assert(cs =~= p.push(cs.last()));
        let fp = p.filter(pred);
        if pred(cs.last()) {
            assert(cs.filter(pred) == fp.push(cs.last()));
            assert forall|i: int| 0 <= i < fp.len() implies !same_key(
                #[trigger] fp[i],
                cs.last(),
            ) by {
                assert(fp.contains(fp[i]));
                p.lemma_filter_contains_rev(pred, fp[i]);
                let k = choose|k: int| 0 <= k < p.len() && p[k] == fp[i];
                assert(cs[k] == p[k]);
                assert(!same_key(cs[k], cs[cs.len() - 1]));
            }
            let r = fp.push(cs.last());
            assert forall|i: int, j: int|
                0 <= i < r.len() && 0 <= j < r.len() && i != j implies !same_key(
                #[trigger] r[i],
                #[trigger] r[j],
            ) by {
                if i < fp.len() && j < fp.len() {
                    assert(r[i] == fp[i] && r[j] == fp[j]);
                } else if i < fp.len() {
                    assert(r[i] == fp[i]);
                } else if j < fp.len() {
                    assert(r[j] == fp[j]);
                }
            }
        } else {
            assert(cs.filter(pred) == fp);
        }
    }
}

/// A cookie is sent to a host and path only when the path starts with the
/// cookie's path; a cookie for its own host alone (not for subdomains, and
/// with a domain that does not start with `.`) only to exactly that host.
pub proof fn lemma_cookie_matches_scope(c: CookieView, host: Seq<char>, path: Seq<char>)
    requires
        cookie_matches(c, host, path),
    ensures
        path.len() >= c.path.len() && path.subrange(0, c.path.len() as int) == c.path,
        !c.subdomains && !(c.domain.len() > 0 && c.domain[0] == '.') ==> host == c.domain,
{
    assert(path.take(c.path.len() as int) =~= path.subrange(0, c.path.len() as int));
    if !c.subdomains && !(c.domain.len() > 0 && c.domain[0] == '.') {
        if starts_with(c.domain, seq!['.']) {
            assert(c.domain.take(1)[0] == seq!['.'][0]);
        }
    }
}

/// Removing the cookies that have expired at a moment a second time removes
/// nothing more.
pub proof fn lemma_unexpired_idempotent(cs: Seq<CookieView>, now_secs: i64, now_nanos: u32)
    ensures
        unexpired(unexpired(cs, now_secs, now_nanos), now_secs, now_nanos) == unexpired(
            cs,
            now_secs,
            now_nanos,
        ),
    decreases cs.len(),
{
    let pred = |c: CookieView| !expired_at(c.expired, now_secs, now_nanos);
    reveal_with_fuel(Seq::filter, 1);
    if cs.len() > 0 {
        let p = cs.drop_last();
        lemma_unexpired_idempotent(p, now_secs, now_nanos);
        let fp = p.filter(pred);
        if pred(cs.last()) {
            assert(cs.filter(pred) == fp.push(cs.last()));
            assert(fp.push(cs.last()).drop_last() =~= fp);
            assert(fp.push(cs.last()).filter(pred) == fp.filter(pred).push(cs.last()));
        } else {
            assert(cs.filter(pred) == fp);
        }
    } else {
        assert(cs.filter(pred) =~= cs);
    }
}

impl CookieJar {
    /// No two cookies of a jar have the same name and domain.
    #[verifier::type_invariant]
    spec fn keys_are_unique(self) -> bool {
        keys_unique(self@)
    }

    pub fn new() -> (r: Self)
        ensures
            r@ == Seq::<CookieView>::empty(),
    {
        let r = Self { cookies: Vec::new() };
        assert(r@ =~= Seq::<CookieView>::empty());
        r
    }

    /// The number of cookies.
    pub fn len(&self) -> (r: usize)
        ensures
            r == self@.len(),
    {
        self.cookies.len()
    }

    /// No two cookies of the jar have the same name and domain.
    pub fn keys_unique(&self) -> (r: bool)
        ensures
            r,
            keys_unique(self@),
    {
        proof {
            use_type_invariant(self);
        }
        true
    }

    /// Adds a cookie: it replaces the first cookie with the same name and
    /// domain, or is put last.
    pub fn add(&mut self, c: Cookie)
        ensures
            final(self)@ == jar_add(old(self)@, c@),
            keys_unique(final(self)@),
    {
        proof {
            use_type_invariant(&*self);
        }
        let ghost cv = c@;
        let mut i: usize = 0;
        while i < self.cookies.len()
            invariant
                i <= self.cookies@.len(),
                self@ == old(self)@,
                keys_unique(self@),
                c@ == cv,
                forall|j: int| 0 <= j < i ==> !same_key(#[trigger] self@[j], cv),
            decreases self.cookies@.len() - i,
        {
            if self.cookies[i].is_same_key(&c) {
                proof {
                    assert(is_first_key_index(old(self)@, cv, i as int));
                    let k = choose|k: int| is_first_key_index(old(self)@, cv, k);
                    assert(k == i) by {
                        if k < i {
                            assert(!same_key(old(self)@[k], cv));
                        }
                        if k > i {
                            assert(!same_key(old(self)@[i as int], cv));
                        }
                    }
                }
                let mut v: Vec<Cookie> = Vec::new();
        std::mem::swap(&mut v, &mut self.cookies);
                v.set(i, c);
                proof {
                    let r = v@.map_values(|c: Cookie| c@);
                    assert(r =~= old(self)@.update(i as int, cv));
                    assert forall|a: int, b: int|
                        0 <= a < r.len() && 0 <= b < r.len() && a != b implies !same_key(
                        #[trigger] r[a],
                        #[trigger] r[b],
                    ) by {
                        if a != i && b != i {
                            assert(r[a] == old(self)@[a] && r[b] == old(self)@[b]);
                        } else if a == i {
                            assert(r[b] == old(self)@[b]);
                            assert(!same_key(old(self)@[b], old(self)@[i as int]));
                        } else {
                            assert(r[a] == old(self)@[a]);
                            assert(!same_key(old(self)@[a], old(self)@[i as int]));
                        }
                    }
                }
                self.cookies = v;
                return;
            }
            i = i + 1;
        }
        assert(!exists|k: int| is_first_key_index(old(self)@, cv, k));
        let mut v: Vec<Cookie> = Vec::new();
        std::mem::swap(&mut v, &mut self.cookies);
        v.push(c);
        proof {
            let r = v@.map_values(|c: Cookie| c@);
            assert(r =~= old(self)@.push(cv));
            assert forall|a: int, b: int|
                0 <= a < r.len() && 0 <= b < r.len() && a != b implies !same_key(
                #[trigger] r[a],
                #[trigger] r[b],
            ) by {
                if a < old(self)@.len() && b < old(self)@.len() {
                    assert(r[a] == old(self)@[a] && r[b] == old(self)@[b]);
                } else if a < old(self)@.len() {
                    assert(r[a] == old(self)@[a]);
                } else {
                    assert(r[b] == old(self)@[b]);
                }
            }
        }
        self.cookies = v;
    }

    /// Removes the cookies that have expired at the given moment.
    pub fn check_expired_at(&mut self, now_secs: i64, now_nanos: u32)
        ensures
            final(self)@ == unexpired(old(self)@, now_secs, now_nanos),
            keys_unique(final(self)@),
    {
        proof {
            use_type_invariant(&*self);
            lemma_unexpired_keys_unique(self@, now_secs, now_nanos);
        }
        let ghost pred = |c: CookieView| !expired_at(c.expired, now_secs, now_nanos);
        let mut kept: Vec<Cookie> = Vec::new();
        let mut i: usize = 0;
        let n = self.cookies.len();
        while i < n
            invariant
                i <= n == self.cookies@.len(),
                self@ == old(self)@,
                kept@.map_values(|c: Cookie| c@) == self@.take(i as int).filter(pred),
                pred == (|c: CookieView| !expired_at(c.expired, now_secs, now_nanos)),
            decreases n - i,
        {
            let c = &self.cookies[i];
            let ghost t1 = self@.take(i + 1);
            proof {
                assert(t1.drop_last() =~= self@.take(i as int));
                assert(t1.last() == c@);
                reveal_with_fuel(Seq::filter, 1);
                assert(t1.filter(pred) == if pred(c@) {
                    self@.take(i as int).filter(pred).push(c@)
                } else {
                    self@.take(i as int).filter(pred)
                });
            }
            if !c.is_expired_at(now_secs, now_nanos) {
                let ghost before = kept@;
                kept.push(c.duplicate());
                assert(kept@.map_values(|c: Cookie| c@) =~= before.map_values(|c: Cookie| c@).push(
                    c@,
                ));
            }
            i = i + 1;
        }
        assert(self@.take(n as int) =~= self@);
        self.cookies = kept;
    }

    /// Check and remove all expired cookies
    pub fn check_expired(&mut self)
        ensures
            exists|s: i64, n: u32| final(self)@ == unexpired(old(self)@, s, n),
            keys_unique(final(self)@),
    {
        let (s, n) = now_timestamp();
        self.check_expired_at(s, n);
    }

    pub fn clear(&mut self)
        ensures
            final(self)@ == Seq::<CookieView>::empty(),
    {
        self.cookies = Vec::new();
        assert(self@ =~= Seq::<CookieView>::empty());
    }

    /// The first cookie with a name.
    pub fn get(&self, name: &str) -> (r: Option<&Cookie>)
        ensures
            match r {
                Some(c) => exists|i: int| is_first_named(self@, name@, i) && self@[i] == c@,
                None => forall|i: int| 0 <= i < self@.len() ==> (#[trigger] self@[i]).name != name@,
            },
    {
        let n = self.cookies.len();
        let mut i: usize = 0;
        while i < n
            invariant
                i <= n == self.cookies@.len(),
                forall|j: int| 0 <= j < i ==> (#[trigger] self@[j]).name != name@,
            decreases n - i,
        {
            if str_eq(self.cookies[i].name.as_str(), name) {
                assert(is_first_named(self@, name@, i as int));
                return Some(&self.cookies[i]);
            }
            i = i + 1;
        }
        None
    }

    /// The cookies, in order.
    pub fn cookies(&self) -> (r: &Vec<Cookie>)
        ensures
            r@.map_values(|c: Cookie| c@) == self@,
    {
        &self.cookies
    }

    /// The Netscape cookie file text of the cookies that have not expired
    /// at the given moment, which are all the jar keeps afterwards.
    pub fn to_netscape_string_at(&mut self, now_secs: i64, now_nanos: u32) -> (r: String)
        ensures
            final(self)@ == unexpired(old(self)@, now_secs, now_nanos),
            keys_unique(final(self)@),
            r@ == netscape_text(final(self)@),
    {
        self.check_expired_at(now_secs, now_nanos);
        let mut s = String::new();
        let n = self.cookies.len();
        let mut i: usize = 0;
        while i < n
            invariant
                i <= n == self.cookies@.len(),
                s@ == netscape_text(self@.take(i as int)),
            decreases n - i,
        {
            let line = self.cookies[i].to_netscape_str();
            s.append(line.as_str());
            assert(self@.take(i + 1).drop_last() =~= self@.take(i as int));
            i = i + 1;
        }
        assert(self@.take(n as int) =~= self@);
        s
    }

    /// The Netscape cookie file text of the cookies that have not expired
    /// now, which are all the jar keeps afterwards.
    pub fn to_netscape_string(&mut self) -> (r: String)
        ensures
            exists|s: i64, n: u32| final(self)@ == unexpired(old(self)@, s, n),
            keys_unique(final(self)@),
            r@ == netscape_text(final(self)@),
    {
        let (s, n) = now_timestamp();
        self.to_netscape_string_at(s, n)
    }
}

/// What a line of a Netscape cookie file gives once trimmed: nothing for a
/// comment, a cookie for seven or more tab separated fields whose expiry time
/// is a number (0 for none), and a failure otherwise.
pub open spec fn parse_netscape_line(line: Seq<char>) -> Result<Option<CookieView>, ()> {
    let l = trim(line);
    if starts_with(l, seq!['#']) {
        Ok(None)
    } else {
        let f = split_on(l, '\t');
        if f.len() < 7 {
            Err(())
        } else {
            match parse_i64(trim(f[4])) {
                None => Err(()),
                Some(t) => Ok(
                    Some(
                        CookieView {
                            domain: f[0],
                            subdomains: f[1] != netscape_flag(false),
                            path: f[2],
                            http_only: f[3] != netscape_flag(false),
                            expired: if t == 0 {
                                None
                            } else {
                                Some(t)
                            },
                            name: f[5],
                            value: f[6],
                        },
                    ),
                ),
            }
        }
    }
}

/// Reading lines of a cookie file into an empty jar: the cookies read so far,
/// and whether every line was read. The first line that fails stops it.
pub open spec fn read_lines_fold(lines: Seq<Seq<char>>) -> (Seq<CookieView>, bool)
    decreases lines.len(),
{
    if lines.len() == 0 {
        (seq![], true)
    } else {
        let (cs, ok) = read_lines_fold(lines.drop_last());
        if !ok {
            (cs, false)
        } else {
            match parse_netscape_line(lines.last()) {
                Err(_) => (cs, false),
                Ok(None) => (cs, true),
                Ok(Some(c)) => (jar_add(cs, c), true),
            }
        }
    }
}

impl Cookie {
    /// Reads a line of a Netscape cookie file: `Ok(None)` for a comment.
    fn from_netscape_chars(line: &Vec<char>) -> (r: Result<Option<Cookie>, ()>)
        ensures
            match parse_netscape_line(line@) {
                Err(_) => r is Err,
                Ok(None) => r matches Ok(None),
                Ok(Some(c)) => r matches Ok(Some(k)) && k@ == c,
            },
    {
        let l = trim_chars(line);
        let hash: Vec<char> = vec!['#'];
        assert(hash@ =~= seq!['#']);
        if chars_start_with(&l, &hash) {
            return Ok(None);
        }
        let f = split_chars(&l, '\t');
        if f.len() < 7 {
            return Err(());
        }
        let t = match parse_i64_chars(&trim_chars(&f[4])) {
            Some(t) => t,
            None => {
                return Err(());
            },
        };
        let false_word: Vec<char> = vec!['F', 'A', 'L', 'S', 'E'];
        assert(false_word@ =~= netscape_flag(false));
        let c = Cookie {
            domain: string_of_chars(&f[0]),
            subdomains: !chars_eq(&f[1], &false_word),
            path: string_of_chars(&f[2]),
            http_only: !chars_eq(&f[3], &false_word),
            expired: if t == 0 {
                None
            } else {
                Some(t)
            },
            name: string_of_chars(&f[5]),
            value: string_of_chars(&f[6]),
        };
        Ok(Some(c))
    }

    /// Reads a line of a Netscape cookie file: `Ok(None)` for a comment.
    pub fn from_netscape_line(line: &str) -> (r: Result<Option<Cookie>, ()>)
        ensures
            match parse_netscape_line(line@) {
                Err(_) => r is Err,
                Ok(None) => r matches Ok(None),
                Ok(Some(c)) => r matches Ok(Some(k)) && k@ == c,
            },
    {
        Self::from_netscape_chars(&chars_of(line))
    }
}

/// Splits a text into lines as `BufRead::lines` does.
pub fn lines_of(text: &str) -> (r: Vec<Vec<char>>)
    ensures
        r@.len() == text_lines(text@).len(),
        forall|i: int| 0 <= i < r@.len() ==> (#[trigger] r@[i])@ == text_lines(text@)[i],
{
    let mut v = split_chars(&chars_of(text), '\n');
    proof {
        lemma_split_on_nonempty(text@, '\n');
    }
    let last = v.len() - 1;
    if v[last].len() == 0 {
        let ghost before = v@;
        v.pop();
        assert(forall|i: int| 0 <= i < v@.len() ==> v@[i] == before[i]);
    }
    v
}

impl CookieJar {
    /// Reads the text of a Netscape cookie file into the jar, which is
    /// emptied first. Returns false, keeping the cookies read so far, at the
    /// first line that is not a comment and not a cookie. Once every line is
    /// read, the cookies that have expired at the given moment are removed.
    pub fn read_text_at(&mut self, text: &str, now_secs: i64, now_nanos: u32) -> (r: bool)
        ensures
            ({
                let (cs, ok) = read_lines_fold(text_lines(text@));
                &&& r == ok
                &&& ok ==> final(self)@ == unexpired(cs, now_secs, now_nanos)
                &&& !ok ==> final(self)@ == cs
            }),
            keys_unique(final(self)@),
    {
        self.clear();
        let lines = lines_of(text);
        let ghost ls = text_lines(text@);
        assert(ls =~= lines@.map_values(|l: Vec<char>| l@));
        let n = lines.len();
        let mut i: usize = 0;
        while i < n
            invariant
                i <= n == lines@.len() == ls.len(),
                ls == text_lines(text@),
                forall|j: int| 0 <= j < lines@.len() ==> (#[trigger] lines@[j])@ == ls[j],
                read_lines_fold(ls.take(i as int)) == (self@, true),
            decreases n - i,
        {
            proof {
                assert(ls.take(i + 1).drop_last() =~= ls.take(i as int));
                assert(ls.take(i + 1).last() == lines@[i as int]@);
            }
            match Cookie::from_netscape_chars(&lines[i]) {
                Err(_) => {
                    proof {
                        assert(read_lines_fold(ls.take(i + 1)) == (self@, false));
                        lemma_read_lines_fail_sticks(ls, i + 1);
                        use_type_invariant(&*self);
                    }
                    return false;
                },
                Ok(None) => {},
                Ok(Some(c)) => {
                    self.add(c);
                },
            }
            i = i + 1;
        }
        assert(ls.take(n as int) =~= ls);
        self.check_expired_at(now_secs, now_nanos);
        true
    }

    /// Reads the text of a Netscape cookie file into the jar, then removes
    /// the cookies that have expired now (see `read_text_at`).
    pub fn read_text(&mut self, text: &str) -> (r: bool)
        ensures
            ({
                let (cs, ok) = read_lines_fold(text_lines(text@));
                &&& r == ok
                &&& ok ==> exists|s: i64, n: u32| final(self)@ == unexpired(cs, s, n)
                &&& !ok ==> final(self)@ == cs
            }),
            keys_unique(final(self)@),
    {
        let (s, n) = now_timestamp();
        self.read_text_at(text, s, n)
    }
}

/// Once reading lines has failed, reading more lines changes nothing.
proof fn lemma_read_lines_fail_sticks(ls: Seq<Seq<char>>, k: int)
    requires
        0 <= k <= ls.len(),
        !read_lines_fold(ls.take(k)).1,
    ensures
        read_lines_fold(ls) == read_lines_fold(ls.take(k)),
    decreases ls.len() - k,
{
    if k < ls.len() {
        assert(ls.take(k + 1).drop_last() =~= ls.take(k));
        lemma_read_lines_fail_sticks(ls, k + 1);
    } else {
        assert(ls.take(k) =~= ls);
    }
}

/// Whether a cookie survives a Netscape cookie file: no field holds a tab or
/// a line break, the domain starts with a character that is neither white
/// space nor `#`, the value ends with one that is not white space, and the
/// expiry time is not the epoch itself (which the file writes as "none").
pub open spec fn netscape_safe(c: CookieView) -> bool {
    &&& !c.domain.contains('\t') && !c.domain.contains('\n')
    &&& !c.path.contains('\t') && !c.path.contains('\n')
    &&& !c.name.contains('\t') && !c.name.contains('\n')
    &&& !c.value.contains('\t') && !c.value.contains('\n')
    &&& c.domain.len() > 0 && !is_white_space(c.domain[0]) && c.domain[0] != '#'
    &&& c.value.len() > 0 && !is_white_space(c.value.last())
    &&& c.expired != Some(0i64)
}

/// The lines of a cookie file for cookies, without their line breaks.
pub open spec fn cookie_lines(cs: Seq<CookieView>) -> Seq<Seq<char>>
    decreases cs.len(),
{
    if cs.len() == 0 {
        seq![]
    } else {
        cookie_lines(cs.drop_last()).push(cookie_line(cs.last()))
    }
}

/// The lines of a text, as `BufRead::lines` reads them: split at each line
/// break, with no empty line after a final line break. (A carriage return
/// that `lines` also drops is white space, which each line loses when it is
/// trimmed.)
pub open spec fn text_lines(text: Seq<char>) -> Seq<Seq<char>> {
    let s = split_on(text, '\n');
    if s.last().len() == 0 {
        s.drop_last()
    } else {
        s
    }
}

proof fn lemma_flag_facts(b: bool)
    ensures
        !netscape_flag(b).contains('\t'),
        !netscape_flag(b).contains('\n'),
        (netscape_flag(b) != netscape_flag(false)) == b,
{
    let f = netscape_flag(b);
    assert forall|i: int| 0 <= i < f.len() implies f[i] != '\t' && f[i] != '\n' by {
        if b {
            assert(f =~= seq!['T', 'R', 'U', 'E']);
        } else {
            assert(f =~= seq!['F', 'A', 'L', 'S', 'E']);
        }
    }
    if b {
        assert(f.len() != netscape_flag(false).len());
    }
}

/// The fields of a cookie's line, when no field holds a tab.
#[verifier::rlimit(60)]
proof fn lemma_cookie_line_fields(c: CookieView)
    requires
        netscape_safe(c),
    ensures
        split_on(cookie_line(c), '\t') == seq![
            c.domain,
            netscape_flag(c.subdomains),
            c.path,
            netscape_flag(c.http_only),
            signed_decimal(expired_time_of(c.expired) as int),
            c.name,
            c.value,
        ],
{
    let e = signed_decimal(expired_time_of(c.expired) as int);
    let fs = netscape_flag(c.subdomains);
    let fh = netscape_flag(c.http_only);
    lemma_signed_decimal(expired_time_of(c.expired));
    lemma_flag_facts(c.subdomains);
    lemma_flag_facts(c.http_only);
    let tab = seq!['\t'];
    let r5 = c.name + tab + c.value;
    let r4 = e + tab + r5;
    let r3 = fh + tab + r4;
    let r2 = c.path + tab + r3;
    let r1 = fs + tab + r2;
    assert(split_on(r5, '\t') == seq![c.name, c.value]) by {
        lemma_split_on_cons(c.name, c.value, '\t');
        lemma_split_on_single(c.value, '\t');
        assert(seq![c.name] + seq![c.value] =~= seq![c.name, c.value]);
    }
    assert(split_on(r4, '\t') == seq![e, c.name, c.value]) by {
        lemma_split_on_cons(e, r5, '\t');
        assert(seq![e] + seq![c.name, c.value] =~= seq![e, c.name, c.value]);
    }
    assert(split_on(r3, '\t') == seq![fh, e, c.name, c.value]) by {
        lemma_split_on_cons(fh, r4, '\t');
        assert(seq![fh] + seq![e, c.name, c.value] =~= seq![fh, e, c.name, c.value]);
    }
    assert(split_on(r2, '\t') == seq![c.path, fh, e, c.name, c.value]) by {
        lemma_split_on_cons(c.path, r3, '\t');
        assert(seq![c.path] + seq![fh, e, c.name, c.value] =~= seq![c.path, fh, e, c.name, c.value]);
    }
    assert(split_on(r1, '\t') == seq![fs, c.path, fh, e, c.name, c.value]) by {
        lemma_split_on_cons(fs, r2, '\t');
        assert(seq![fs] + seq![c.path, fh, e, c.name, c.value] =~= seq![
            fs,
            c.path,
            fh,
            e,
            c.name,
            c.value,
        ]);
    }
    assert(cookie_line(c) =~= c.domain + tab + r1);
    lemma_split_on_cons(c.domain, r1, '\t');
    assert(seq![c.domain] + seq![fs, c.path, fh, e, c.name, c.value] =~= seq![
        c.domain,
        fs,
        c.path,
        fh,
        e,
        c.name,
        c.value,
    ]);
}

/// The line of a cookie that survives a cookie file reads back as the cookie.
pub proof fn lemma_cookie_line_parses(c: CookieView)
    requires
        netscape_safe(c),
    ensures
        parse_netscape_line(cookie_line(c)) == Ok::<Option<CookieView>, ()>(Some(c)),
{
    let line = cookie_line(c);
    let e = signed_decimal(expired_time_of(c.expired) as int);
    lemma_cookie_line_fields(c);
    lemma_signed_decimal(expired_time_of(c.expired));
    lemma_flag_facts(c.subdomains);
    lemma_flag_facts(c.http_only);
    assert(line[0] == c.domain[0]);
    assert(line.last() == c.value.last());
    lemma_trim_noop(line);
    assert(!starts_with(line, seq!['#'])) by {
        assert(line.take(1)[0] == c.domain[0]);
    }
    lemma_trim_noop(e);
}

/// The text of cookies, split at line breaks, is their lines.
proof fn lemma_netscape_text_splits(cs: Seq<CookieView>, b: Seq<char>)
    requires
        forall|i: int| 0 <= i < cs.len() ==> netscape_safe(#[trigger] cs[i]),
    ensures
        split_on(netscape_text(cs) + b, '\n') == cookie_lines(cs) + split_on(b, '\n'),
    decreases cs.len(),
{
    if cs.len() > 0 {
        let p = cs.drop_last();
        let c = cs.last();
        let l = cookie_line(c);
        assert(netscape_safe(cs[cs.len() - 1]));
        assert(netscape_text(cs) + b =~= (netscape_text(p) + l) + seq!['\n'] + b);
        lemma_split_on_concat(netscape_text(p) + l, b, '\n');
        lemma_netscape_text_splits(p, l);
        lemma_signed_decimal(expired_time_of(c.expired));
        lemma_flag_facts(c.subdomains);
        lemma_flag_facts(c.http_only);
        assert(!l.contains('\n')) by {
            let tab = seq!['\t'];
            if l.contains('\n') {
                let k = choose|k: int| 0 <= k < l.len() && l[k] == '\n';
                let fs = netscape_flag(c.subdomains);
                let fh = netscape_flag(c.http_only);
                let e = signed_decimal(expired_time_of(c.expired) as int);
                let n0 = c.domain.len() as int;
                let n1 = n0 + 1 + fs.len();
                let n2 = n1 + 1 + c.path.len();
                let n3 = n2 + 1 + fh.len();
                let n4 = n3 + 1 + e.len();
                let n5 = n4 + 1 + c.name.len();
                if k < n0 {
                    assert(c.domain[k] == '\n');
                } else if k == n0 || k == n1 || k == n2 || k == n3 || k == n4 || k == n5 {
                    assert(l[k] == '\t');
                } else if k < n1 {
                    assert(fs[k - n0 - 1] == '\n');
                } else if k < n2 {
                    assert(c.path[k - n1 - 1] == '\n');
                } else if k < n3 {
                    assert(fh[k - n2 - 1] == '\n');
                } else if k < n4 {
                    assert(e[k - n3 - 1] == '\n');
                } else if k < n5 {
                    assert(c.name[k - n4 - 1] == '\n');
                } else {
                    assert(c.value[k - n5 - 1] == '\n');
                }
            }
        }
        lemma_split_on_single(l, '\n');
        assert(cookie_lines(p) + split_on(l, '\n') + split_on(b, '\n') =~= cookie_lines(cs)
            + split_on(b, '\n'));
    } else {
        assert(netscape_text(cs) + b =~= b);
        assert(cookie_lines(cs) + split_on(b, '\n') =~= split_on(b, '\n'));
    }
}

/// The lines of cookies with distinct keys read back as the cookies.
proof fn lemma_read_cookie_lines(cs: Seq<CookieView>)
    requires
        keys_unique(cs),
        forall|i: int| 0 <= i < cs.len() ==> netscape_safe(#[trigger] cs[i]),
    ensures
        read_lines_fold(cookie_lines(cs)) == (cs, true),
    decreases cs.len(),
{
    if cs.len() > 0 {
        let p = cs.drop_last();
        let c = cs.last();
        assert(keys_unique(p)) by {
            assert forall|i: int, j: int|
                0 <= i < p.len() && 0 <= j < p.len() && i != j implies !same_key(
                #[trigger] p[i],
                #[trigger] p[j],
            ) by {
                assert(p[i] == cs[i] && p[j] == cs[j]);
            }
        }
        assert forall|i: int| 0 <= i < p.len() implies netscape_safe(#[trigger] p[i]) by {
            assert(p[i] == cs[i]);
        }
        lemma_read_cookie_lines(p);
        assert(netscape_safe(cs[cs.len() - 1]));
        lemma_cookie_line_parses(c);
        let ls = cookie_lines(cs);
        assert(ls.drop_last() =~= cookie_lines(p));
        assert(!exists|i: int| is_first_key_index(p, c, i)) by {
            if exists|i: int| is_first_key_index(p, c, i) {
                let i = choose|i: int| is_first_key_index(p, c, i);
                assert(same_key(cs[i], cs[cs.len() - 1]));
            }
        }
        assert(p.push(c) =~= cs);
    }
}

/// Reading back the cookie file text of cookies gives the same cookies, in
/// the same order, when no two of them have the same name and domain (which
/// a jar keeps) and each survives a cookie file.
pub proof fn lemma_cookie_file_roundtrip(cs: Seq<CookieView>)
    requires
        keys_unique(cs),
        forall|i: int| 0 <= i < cs.len() ==> netscape_safe(#[trigger] cs[i]),
    ensures
        read_lines_fold(text_lines(netscape_text(cs))) == (cs, true),
{
    lemma_netscape_text_splits(cs, seq![]);
    assert(netscape_text(cs) + seq![] =~= netscape_text(cs));
    let s = split_on(netscape_text(cs), '\n');
    assert(s.last() == Seq::<char>::empty());
    assert(s.drop_last() =~= cookie_lines(cs));
    lemma_read_cookie_lines(cs);
}

} // verus!
