use crate::data::data::opt_str;
use crate::cookies::{now_timestamp, parse_url, url_host_and_path, Cookie, CookieView};
use crate::text::{
    chars_eq, chars_of, chars_replace, replace_char, chars_start_with, lemma_split_on_nonempty, lowercase,
    lowercase_chars, parse_i64, parse_i64_chars, split_chars, split_on, starts_with,
    string_of_chars, trim, trim_chars,
};
use vstd::prelude::*;

verus! {

/// What the attributes of a `Set-Cookie` header have set so far.
pub struct SetCookieState {
    pub domain: Seq<char>,
    pub path: Seq<char>,
    pub http_only: bool,
    /// Expiry time in seconds since the Unix epoch; 0 for none.
    pub expired: i64,
}

/// The pieces of an attribute, trimmed, between its `=` signs.
pub open spec fn attr_pieces(attr: Seq<char>) -> Seq<Seq<char>> {
    split_on(trim(attr), '=')
}

/// The attribute's name, in lower case.
pub open spec fn attr_key(attr: Seq<char>) -> Seq<char> {
    lowercase(attr_pieces(attr)[0])
}

/// What one attribute does to the state; `None` when the header is refused.
/// `parsed` is what the date of an `Expires` attribute was read as, and
/// `now` the current time in seconds.
pub open spec fn set_cookie_step(
    st: SetCookieState,
    attr: Seq<char>,
    parsed: Option<i64>,
    now: i64,
) -> Option<SetCookieState> {
    let ll = attr_pieces(attr);
    let k = attr_key(attr);
    if k == seq!['e', 'x', 'p', 'i', 'r', 'e', 's'] {
        if ll.len() < 2 {
            None
        } else {
            match parsed {
                None => None,
                Some(t) => Some(SetCookieState { expired: t, ..st }),
            }
        }
    } else if k == seq!['m', 'a', 'x', '-', 'a', 'g', 'e'] {
        if ll.len() < 2 {
            None
        } else {
            match parse_i64(ll[1]) {
                None => None,
                Some(n) => if i64::MIN <= n + now <= i64::MAX {
                    Some(SetCookieState { expired: (n + now) as i64, ..st })
                } else {
                    None
                },
            }
        }
    } else if k == seq!['d', 'o', 'm', 'a', 'i', 'n'] {
        if ll.len() < 2 {
            None
        } else {
            Some(SetCookieState { domain: ll[1], ..st })
        }
    } else if k == seq!['p', 'a', 't', 'h'] {
        if ll.len() < 2 || !starts_with(ll[1], seq!['/']) {
            None
        } else {
            Some(SetCookieState { path: ll[1], ..st })
        }
    } else if k == seq!['h', 't', 't', 'p', 'o', 'n', 'l', 'y'] {
        Some(SetCookieState { http_only: true, ..st })
    } else {
        Some(st)
    }
}

/// The date read for the `j`-th attribute, if any was read.
pub open spec fn parsed_at(parsed: Seq<Option<i64>>, j: int) -> Option<i64> {
    if 0 <= j < parsed.len() {
        parsed[j]
    } else {
        None
    }
}

/// The state after the first `n` attributes.
pub open spec fn set_cookie_fold(
    attrs: Seq<Seq<char>>,
    parsed: Seq<Option<i64>>,
    now: i64,
    init: SetCookieState,
    n: nat,
) -> Option<SetCookieState>
    decreases n,
{
    if n == 0 {
        Some(init)
    } else {
        match set_cookie_fold(attrs, parsed, now, init, (n - 1) as nat) {
            None => None,
            Some(st) => set_cookie_step(st, attrs[n - 1], parsed_at(parsed, n - 1), now),
        }
    }
}

/// The attributes a `Set-Cookie` header is read for: the pieces between its
/// `;` signs, from the third on.
pub open spec fn set_cookie_attrs(header: Seq<char>) -> Seq<Seq<char>> {
    let l = split_on(header, ';');
    if l.len() > 2 {
        l.skip(2)
    } else {
        seq![]
    }
}

/// The cookie a `Set-Cookie` header sets for a URL with the given host and
/// path: its name and value are the first two `=` separated pieces of the
/// header's first `;` separated piece.
pub open spec fn cookie_of_set_cookie(
    host: Seq<char>,
    path: Seq<char>,
    header: Seq<char>,
    parsed: Seq<Option<i64>>,
    now: i64,
) -> Option<CookieView> {
    let l2 = split_on(split_on(header, ';')[0], '=');
    let attrs = set_cookie_attrs(header);
    let init = SetCookieState { domain: host, path, http_only: false, expired: 0 };
    if l2.len() < 2 {
        None
    } else {
        match set_cookie_fold(attrs, parsed, now, init, attrs.len()) {
            None => None,
            Some(st) => Some(
                CookieView {
                    name: l2[0],
                    value: l2[1],
                    subdomains: starts_with(st.domain, seq!['.']),
                    path: st.path,
                    http_only: st.http_only,
                    expired: if st.expired == 0 {
                        None
                    } else {
                        Some(st.expired)
                    },
                    domain: st.domain,
                },
            ),
        }
    }
}

/// Attributes other than `Domain` leave the domain as it was.
pub proof fn lemma_fold_keeps_domain(
    attrs: Seq<Seq<char>>,
    parsed: Seq<Option<i64>>,
    now: i64,
    init: SetCookieState,
    n: nat,
)
    requires
        n <= attrs.len(),
        forall|i: int| 0 <= i < n ==> attr_key(#[trigger] attrs[i]) != seq!['d', 'o', 'm', 'a', 'i', 'n'],
    ensures
        set_cookie_fold(attrs, parsed, now, init, n) matches Some(st) ==> st.domain == init.domain,
    decreases n,
{
    if n > 0 {
        lemma_fold_keeps_domain(attrs, parsed, now, init, (n - 1) as nat);
        assert(attr_key(attrs[n - 1]) != seq!['d', 'o', 'm', 'a', 'i', 'n']);
    }
}

/// Along the attributes, the path stays the first one or is one that starts
/// with `/`, and the cookie is HTTP only exactly when an `HttpOnly`
/// attribute was met (or it was so at first).
pub proof fn lemma_fold_path_http_only(
    attrs: Seq<Seq<char>>,
    parsed: Seq<Option<i64>>,
    now: i64,
    init: SetCookieState,
    n: nat,
)
    requires
        n <= attrs.len(),
    ensures
        set_cookie_fold(attrs, parsed, now, init, n) matches Some(st) ==> (st.path == init.path
            || (st.path.len() > 0 && st.path[0] == '/')),
        set_cookie_fold(attrs, parsed, now, init, n) matches Some(st) ==> (st.http_only <==> (
        init.http_only || exists|i: int|
            0 <= i < n && attr_key(#[trigger] attrs[i]) == seq!['h', 't', 't', 'p', 'o', 'n', 'l', 'y'])),
    decreases n,
{
    if n > 0 {
        lemma_fold_path_http_only(attrs, parsed, now, init, (n - 1) as nat);
        if let Some(st) = set_cookie_fold(attrs, parsed, now, init, n) {
            let prev = set_cookie_fold(attrs, parsed, now, init, (n - 1) as nat).unwrap();
            let a = attrs[n - 1];
            let k = attr_key(a);
            if k == seq!['p', 'a', 't', 'h'] {
                let p = attr_pieces(a)[1];
                assert(starts_with(p, seq!['/']));
                assert(p.take(1)[0] == '/');
            }
            if init.http_only || exists|i: int|
                0 <= i < n - 1 && attr_key(#[trigger] attrs[i]) == seq!['h', 't', 't', 'p', 'o', 'n', 'l', 'y'] {
                assert(prev.http_only);
            }
            if st.http_only && !prev.http_only {
                assert(attr_key(attrs[n - 1]) == seq!['h', 't', 't', 'p', 'o', 'n', 'l', 'y']);
            }
        }
    }
}

/// The cookie a `Set-Cookie` header sets is for subdomains exactly when its
/// domain starts with `.`; without a `Domain` attribute its domain is the
/// host of the URL, so it is for that host alone unless the host starts
/// with `.`.
pub proof fn lemma_set_cookie_subdomains(
    host: Seq<char>,
    path: Seq<char>,
    header: Seq<char>,
    parsed: Seq<Option<i64>>,
    now: i64,
)
    ensures
        cookie_of_set_cookie(host, path, header, parsed, now) matches Some(c) ==> (c.subdomains <==> (
        c.domain.len() > 0 && c.domain[0] == '.')),
        (forall|i: int|
            0 <= i < set_cookie_attrs(header).len() ==> attr_key(#[trigger] set_cookie_attrs(header)[i])
                != seq!['d', 'o', 'm', 'a', 'i', 'n']) ==> (cookie_of_set_cookie(
            host,
            path,
            header,
            parsed,
            now,
        ) matches Some(c) ==> c.domain == host && (c.subdomains <==> (host.len() > 0 && host[0]
            == '.'))),
{
    let attrs = set_cookie_attrs(header);
    let init = SetCookieState { domain: host, path, http_only: false, expired: 0 };
    if forall|i: int| 0 <= i < attrs.len() ==> attr_key(#[trigger] attrs[i]) != seq!['d', 'o', 'm', 'a', 'i', 'n'] {
        lemma_fold_keeps_domain(attrs, parsed, now, init, attrs.len());
    }
    if let Some(c) = cookie_of_set_cookie(host, path, header, parsed, now) {
        if c.domain.len() > 0 && c.domain[0] == '.' {
            assert(c.domain.take(1) =~= seq!['.']);
        }
        if starts_with(c.domain, seq!['.']) {
            assert(c.domain.take(1)[0] == seq!['.'][0]);
        }
    }
}

/// The cookie a `Set-Cookie` header sets has the path of the URL, or one
/// given by a `Path` attribute, which starts with `/`; it is HTTP only
/// exactly when the header has an `HttpOnly` attribute.
pub proof fn lemma_set_cookie_path_http_only(
    host: Seq<char>,
    path: Seq<char>,
    header: Seq<char>,
    parsed: Seq<Option<i64>>,
    now: i64,
)
    ensures
        cookie_of_set_cookie(host, path, header, parsed, now) matches Some(c) ==> (c.path == path || (
        c.path.len() > 0 && c.path[0] == '/')),
        cookie_of_set_cookie(host, path, header, parsed, now) matches Some(c) ==> (c.http_only <==> exists|
            i: int,
        |
            0 <= i < set_cookie_attrs(header).len() && attr_key(#[trigger] set_cookie_attrs(header)[i])
                == seq!['h', 't', 't', 'p', 'o', 'n', 'l', 'y']),
{
    let attrs = set_cookie_attrs(header);
    let init = SetCookieState { domain: host, path, http_only: false, expired: 0 };
    lemma_fold_path_http_only(attrs, parsed, now, init, attrs.len());
}

/// What an optional cookie holds.
pub open spec fn cookie_view_of(r: Option<Cookie>) -> Option<CookieView> {
    match r {
        Some(c) => Some(c@),
        None => None,
    }
}

/// Whether a character is an ASCII digit.
pub open spec fn ascii_digit(c: char) -> bool {
    '0' <= c <= '9'
}

/// Whether a text ends in what `dateparser` may read as a time zone offset
/// of 24 hours or more: a sign 6 or 5 characters before its end, followed by
/// two digits that make 24 or more. `dateparser` reads a zone only from the
/// last 3 to 6 characters of a text, and reads an offset only when two digits
/// of minutes follow those of the hours; `chrono` panics on an offset of a
/// day or more.
pub open spec fn big_zone_offset(s: Seq<char>) -> bool {
    exists|k: int| 0 <= k && s.len() - 6 <= k <= s.len() - 5 && #[trigger] big_offset_at(s, k)
}

/// Whether a sign at `k` is followed by two digits that make 24 or more.
pub open spec fn big_offset_at(s: Seq<char>, k: int) -> bool {
    &&& s[k] == '+' || s[k] == '-'
    &&& ascii_digit(s[k + 1]) && ascii_digit(s[k + 2])
    &&& (s[k + 1] as int - '0' as int) * 10 + (s[k + 2] as int - '0' as int) >= 24
}

/// The instant, in seconds since the Unix epoch, that `chrono`'s
/// `DateTime::parse_from_rfc2822` reads from a text, if it reads one.
pub uninterp spec fn rfc2822_timestamp(s: Seq<char>) -> Option<i64>;

/// A date that `chrono` reads as RFC 2822 is read as that instant.
pub open spec fn rfc2822_kept(s: Seq<char>, r: Option<i64>) -> bool {
    rfc2822_timestamp(s) matches Some(t) ==> r == Some(t)
}

/// `dateparser::parse`, then the seconds since the Unix epoch. A text that
/// `chrono` reads as an RFC 2822 date is read as that instant: after a text
/// of 10 to 19 digits, which no RFC 2822 date is, that is the first form
/// `dateparser` tries. What other texts are read as is not stated: a date
/// without a time zone is read in the machine's local one. A text ending in
/// a zone offset of a day or more is not admitted: `chrono` panics on it.
#[verifier::external_body]
fn parse_date(s: &str) -> (r: Option<i64>)
    requires
        !big_zone_offset(s@),
    ensures
        rfc2822_timestamp(s@) is None || r == rfc2822_timestamp(s@),
{
    match dateparser::parse(s) {
        Ok(d) => Some(d.timestamp()),
        Err(_) => None,
    }
}

fn big_offset_at_exec(s: &Vec<char>, k: usize) -> (r: bool)
    requires
        k + 2 < s@.len(),
    ensures
        r == big_offset_at(s@, k as int),
{
    let n = s.len();
    assert(k + 2 < n);
    let c = s[k];
    let d1 = s[k + 1];
    let d2 = s[k + 2];
    if (c == '+' || c == '-') && '0' <= d1 && d1 <= '9' && '0' <= d2 && d2 <= '9' {
        let v: u32 = (d1 as u32 - '0' as u32) * 10 + (d2 as u32 - '0' as u32);
        v >= 24
    } else {
        false
    }
}

/// Whether a text ends in a zone offset of a day or more.
pub fn has_big_zone_offset(s: &Vec<char>) -> (r: bool)
    ensures
        r == big_zone_offset(s@),
{
    let n = s.len();
    if n < 5 {
        return false;
    }
    let mut k: usize = if n >= 6 {
        n - 6
    } else {
        0
    };
    while k <= n - 5
        invariant
            n == s@.len(),
            n >= 5,
            n >= 6 ==> k >= n - 6,
            k <= n - 4,
            forall|i: int|
                0 <= i < k && s@.len() - 6 <= i <= s@.len() - 5 ==> !#[trigger] big_offset_at(
                    s@,
                    i,
                ),
        decreases n - k,
    {
        if big_offset_at_exec(s, k) {
            return true;
        }
        k = k + 1;
    }
    false
}

/// Reads the date of an `Expires` attribute: as it is, or else with every
/// `-` read as a space. A text that ends in a zone offset of a day or more
/// is not read.
fn parse_expires(v: &str) -> (r: Option<i64>)
    ensures
        !big_zone_offset(v@) ==> rfc2822_kept(v@, r),
        big_zone_offset(v@) && big_zone_offset(replace_char(v@, '-', ' ')) ==> r is None,
{
    let c = chars_of(v);
    let first = if has_big_zone_offset(&c) {
        None
    } else {
        parse_date(v)
    };
    match first {
        Some(t) => Some(t),
        None => {
            let c2 = chars_replace(&c, '-', ' ');
            if has_big_zone_offset(&c2) {
                None
            } else {
                let s2 = string_of_chars(&c2);
                let r = parse_date(s2.as_str());
                proof {
                    if !big_zone_offset(v@) {
                        assert(first is None);
                        if rfc2822_timestamp(v@) is Some {
                            assert(false);
                        }
                    }
                }
                r
            }
        },
    }
}

/// The text of an `Expires` attribute: the piece after its `=`, when its
/// name is `expires` (in any case) and it has one.
pub open spec fn expires_text(a: Seq<char>) -> Option<Seq<char>> {
    if attr_key(a) == seq!['e', 'x', 'p', 'i', 'r', 'e', 's'] && attr_pieces(a).len() >= 2 {
        Some(attr_pieces(a)[1])
    } else {
        None
    }
}

/// Whether dates read for the attributes of a header fit them: one for
/// each attribute, none for an attribute that is not an `Expires` with a
/// value, and the instant an RFC 2822 date names for one that is (unless it
/// ends in a zone offset of a day or more).
pub open spec fn parsed_fits(header: Seq<char>, parsed: Seq<Option<i64>>) -> bool {
    let attrs = set_cookie_attrs(header);
    &&& parsed.len() == attrs.len()
    &&& forall|j: int|
        0 <= j < attrs.len() ==> match expires_text(#[trigger] attrs[j]) {
            None => parsed[j] is None,
            Some(x) => !big_zone_offset(x) ==> rfc2822_kept(x, parsed[j]),
        }
}

/// The texts of the `Expires` attributes of a header: entry `j` for the
/// `j`-th attribute, `None` for an attribute that is not an `Expires` with
/// a value.
pub fn expires_texts(header: &str) -> (r: Vec<Option<String>>)
    ensures
        r@.len() == set_cookie_attrs(header@).len(),
        forall|j: int|
            0 <= j < r@.len() ==> opt_str(#[trigger] r@[j]) == expires_text(
                set_cookie_attrs(header@)[j],
            ),
{
    let attrs = attrs_of(header);
    let w_expires: Vec<char> = vec!['e', 'x', 'p', 'i', 'r', 'e', 's'];
    assert(w_expires@ =~= seq!['e', 'x', 'p', 'i', 'r', 'e', 's']);
    let mut out: Vec<Option<String>> = Vec::new();
    let mut j: usize = 0;
    while j < attrs.len()
        invariant
            j <= attrs@.len() == set_cookie_attrs(header@).len(),
            forall|i: int| 0 <= i < attrs@.len() ==> (#[trigger] attrs@[i])@ == set_cookie_attrs(header@)[i],
            w_expires@ == seq!['e', 'x', 'p', 'i', 'r', 'e', 's'],
            out@.len() == j,
            forall|i: int|
                0 <= i < j ==> opt_str(#[trigger] out@[i]) == expires_text(
                    set_cookie_attrs(header@)[i],
                ),
        decreases attrs@.len() - j,
    {
        let (k, ll) = attr_parts(&attrs[j]);
        assert(attrs@[j as int]@ == set_cookie_attrs(header@)[j as int]);
        if chars_eq(&k, &w_expires) && ll.len() >= 2 {
            out.push(Some(string_of_chars(&ll[1])));
        } else {
            out.push(None);
        }
        j = j + 1;
    }
    out
}

/// The lower case name and the pieces of an attribute.
fn attr_parts(attr: &Vec<char>) -> (r: (Vec<char>, Vec<Vec<char>>))
    ensures
        r.0@ == attr_key(attr@),
        r.1@.len() == attr_pieces(attr@).len(),
        forall|i: int| 0 <= i < r.1@.len() ==> (#[trigger] r.1@[i])@ == attr_pieces(attr@)[i],
{
    let ll = split_chars(&trim_chars(attr), '=');
    proof {
        lemma_split_on_nonempty(trim(attr@), '=');
    }
    let k = lowercase_chars(&ll[0]);
    (k, ll)
}

/// The attributes of a header, as characters.
fn attrs_of(header: &str) -> (r: Vec<Vec<char>>)
    ensures
        r@.len() == set_cookie_attrs(header@).len(),
        forall|i: int| 0 <= i < r@.len() ==> (#[trigger] r@[i])@ == set_cookie_attrs(header@)[i],
{
    let l = split_chars(&chars_of(header), ';');
    let mut out: Vec<Vec<char>> = Vec::new();
    let mut j: usize = 2;
    while j < l.len()
        invariant
            l@.len() == split_on(header@, ';').len(),
            forall|i: int| 0 <= i < l@.len() ==> (#[trigger] l@[i])@ == split_on(header@, ';')[i],
            2 <= j,
            l@.len() >= 2 ==> j <= l@.len(),
            j <= l@.len() ==> out@.len() == j - 2,
            l@.len() <= 2 ==> out@.len() == 0,
            forall|i: int| 0 <= i < out@.len() ==> (#[trigger] out@[i])@ == split_on(header@, ';')[i + 2],
        decreases l@.len() - j,
    {
        out.push(l[j].clone());
        j = j + 1;
    }
    proof {
        if l@.len() > 2 {
            assert(j == l@.len());
            let sk = split_on(header@, ';').skip(2);
            assert forall|i: int| 0 <= i < out@.len() implies (#[trigger] out@[i])@ == sk[i] by {
                assert(sk[i] == split_on(header@, ';')[i + 2]);
            }
        }
    }
    out
}

/// Once a header is refused, later attributes change nothing.
proof fn lemma_fold_none_sticks(
    attrs: Seq<Seq<char>>,
    parsed: Seq<Option<i64>>,
    now: i64,
    init: SetCookieState,
    k: nat,
    n: nat,
)
    requires
        k <= n,
        set_cookie_fold(attrs, parsed, now, init, k) is None,
    ensures
        set_cookie_fold(attrs, parsed, now, init, n) is None,
    decreases n - k,
{
    if k < n {
        lemma_fold_none_sticks(attrs, parsed, now, init, k + 1, n);
    }
}

/// Applies one attribute to the state; `None` when the header is refused.
fn apply_attr(
    domain: Vec<char>,
    path: Vec<char>,
    http_only: bool,
    expired: i64,
    attr: &Vec<char>,
    p: Option<i64>,
    now: i64,
) -> (r: Option<(Vec<char>, Vec<char>, bool, i64)>)
    ensures
        match set_cookie_step(
            SetCookieState { domain: domain@, path: path@, http_only, expired },
            attr@,
            p,
            now,
        ) {
            None => r is None,
            Some(st) => r matches Some(t) && t.0@ == st.domain && t.1@ == st.path && t.2
                == st.http_only && t.3 == st.expired,
        },
{
    let (k, ll) = attr_parts(attr);
    let w_expires: Vec<char> = vec!['e', 'x', 'p', 'i', 'r', 'e', 's'];
    let w_max_age: Vec<char> = vec!['m', 'a', 'x', '-', 'a', 'g', 'e'];
    let w_domain: Vec<char> = vec!['d', 'o', 'm', 'a', 'i', 'n'];
    let w_path: Vec<char> = vec!['p', 'a', 't', 'h'];
    let w_http_only: Vec<char> = vec!['h', 't', 't', 'p', 'o', 'n', 'l', 'y'];
    assert(w_expires@ =~= seq!['e', 'x', 'p', 'i', 'r', 'e', 's']);
    assert(w_max_age@ =~= seq!['m', 'a', 'x', '-', 'a', 'g', 'e']);
    assert(w_domain@ =~= seq!['d', 'o', 'm', 'a', 'i', 'n']);
    assert(w_path@ =~= seq!['p', 'a', 't', 'h']);
    assert(w_http_only@ =~= seq!['h', 't', 't', 'p', 'o', 'n', 'l', 'y']);
    if chars_eq(&k, &w_expires) {
        if ll.len() < 2 {
            return None;
        }
        match p {
            None => None,
            Some(t) => Some((domain, path, http_only, t)),
        }
    } else if chars_eq(&k, &w_max_age) {
        if ll.len() < 2 {
            return None;
        }
        match parse_i64_chars(&ll[1]) {
            None => None,
            Some(m) => match now.checked_add(m) {
                None => None,
                Some(e) => Some((domain, path, http_only, e)),
            },
        }
    } else if chars_eq(&k, &w_domain) {
        if ll.len() < 2 {
            return None;
        }
        Some((ll[1].clone(), path, http_only, expired))
    } else if chars_eq(&k, &w_path) {
        let slash: Vec<char> = vec!['/'];
        assert(slash@ =~= seq!['/']);
        if ll.len() < 2 || !chars_start_with(&ll[1], &slash) {
            return None;
        }
        Some((domain, ll[1].clone(), http_only, expired))
    } else if chars_eq(&k, &w_http_only) {
        Some((domain, path, true, expired))
    } else {
        Some((domain, path, http_only, expired))
    }
}

/// The cookie a `Set-Cookie` header sets for a URL with the given host and
/// path, given what the date of each `Expires` attribute was read as
/// (`parsed[j]` for the `j`-th attribute; missing entries read as no date)
/// and the current time in seconds, which `Max-Age` counts from.
pub fn cookie_from_set_cookie(
    host: &str,
    path: &str,
    header: &str,
    parsed: &Vec<Option<i64>>,
    now: i64,
) -> (r: Option<Cookie>)
    ensures
        cookie_view_of(r) == cookie_of_set_cookie(host@, path@, header@, parsed@, now),
        r matches Some(c) ==> (c@.subdomains <==> (c@.domain.len() > 0 && c@.domain[0] == '.')),
        r matches Some(c) ==> (c@.path == path@ || (c@.path.len() > 0 && c@.path[0] == '/')),
{
    let l = split_chars(&chars_of(header), ';');
    proof {
        lemma_split_on_nonempty(header@, ';');
        lemma_split_on_nonempty(split_on(header@, ';')[0], '=');
    }
    let l2 = split_chars(&l[0], '=');
    if l2.len() < 2 {
        return None;
    }
    let attrs = attrs_of(header);
    let ghost init = SetCookieState { domain: host@, path: path@, http_only: false, expired: 0 };
    let mut domain = chars_of(host);
    let mut cpath = chars_of(path);
    let mut http_only = false;
    let mut expired: i64 = 0;
    let n = attrs.len();
    let mut j: usize = 0;
    while j < n
        invariant
            j <= n == attrs@.len() == set_cookie_attrs(header@).len(),
            forall|i: int| 0 <= i < attrs@.len() ==> (#[trigger] attrs@[i])@ == set_cookie_attrs(header@)[i],
            init == (SetCookieState { domain: host@, path: path@, http_only: false, expired: 0 }),
            set_cookie_fold(set_cookie_attrs(header@), parsed@, now, init, j as nat) == Some(
                SetCookieState { domain: domain@, path: cpath@, http_only, expired },
            ),
        decreases n - j,
    {
        let p: Option<i64> = if j < parsed.len() {
            parsed[j]
        } else {
            None
        };
        assert(p == parsed_at(parsed@, j as int));
        assert(attrs@[j as int]@ == set_cookie_attrs(header@)[j as int]);
        match apply_attr(domain, cpath, http_only, expired, &attrs[j], p, now) {
            None => {
                proof {
                    lemma_fold_none_sticks(
                        set_cookie_attrs(header@),
                        parsed@,
                        now,
                        init,
                        (j + 1) as nat,
                        n as nat,
                    );
                }
                return None;
            },
            Some((d, pa, h, e)) => {
                domain = d;
                cpath = pa;
                http_only = h;
                expired = e;
            },
        }
        j = j + 1;
    }
    let dot: Vec<char> = vec!['.'];
    assert(dot@ =~= seq!['.']);
    let subdomains = chars_start_with(&domain, &dot);
    let name = string_of_chars(&l2[0]);
    let value = string_of_chars(&l2[1]);
    let dom = string_of_chars(&domain);
    let pth = string_of_chars(&cpath);
    let e = if expired == 0 {
        None
    } else {
        Some(expired)
    };
    let r = Some(
        Cookie::new(name.as_str(), value.as_str(), dom.as_str(), subdomains, pth.as_str(), http_only, e),
    );
    proof {
        lemma_set_cookie_subdomains(host@, path@, header@, parsed@, now);
        lemma_set_cookie_path_http_only(host@, path@, header@, parsed@, now);
    }
    r
}

impl Cookie {
    /// The cookie that a `Set-Cookie` header sets for a URL. `None` when the
    /// URL does not parse or has no host, or the header is refused. Dates of
    /// `Expires` attributes are read by `dateparser`, in the machine's time
    /// zone when they name none, so what is stated holds for some reading
    /// of them and some current time.
    pub fn from_set_cookie(url: &str, header: &str) -> (r: Option<Cookie>)
        ensures
            match url_host_and_path(url@) {
                None => r is None,
                Some(hp) => exists|parsed: Seq<Option<i64>>, now: i64|
                    parsed_fits(header@, parsed) && cookie_view_of(r)
                        == #[trigger] cookie_of_set_cookie(hp.0, hp.1, header@, parsed, now),
            },
            r matches Some(c) ==> (c@.subdomains <==> (c@.domain.len() > 0 && c@.domain[0] == '.')),
    {
        let (host, path) = match parse_url(url) {
            Some(hp) => hp,
            None => {
                return None;
            },
        };
        let texts = expires_texts(header);
        let mut parsed: Vec<Option<i64>> = Vec::new();
        let mut j: usize = 0;
        while j < texts.len()
            invariant
                url_host_and_path(url@) == Some((host@, path@)),
                j <= texts@.len() == set_cookie_attrs(header@).len(),
                forall|i: int|
                    0 <= i < texts@.len() ==> opt_str(#[trigger] texts@[i]) == expires_text(
                        set_cookie_attrs(header@)[i],
                    ),
                parsed@.len() == j,
                forall|i: int|
                    0 <= i < j ==> match expires_text(#[trigger] set_cookie_attrs(header@)[i]) {
                        None => parsed@[i] is None,
                        Some(x) => !big_zone_offset(x) ==> rfc2822_kept(x, parsed@[i]),
                    },
            decreases texts@.len() - j,
        {
            let p = match &texts[j] {
                Some(t) => parse_expires(t.as_str()),
                None => None,
            };
            assert(opt_str(texts@[j as int]) == expires_text(set_cookie_attrs(header@)[j as int]));
            parsed.push(p);
            j = j + 1;
        }
        let (now, _) = now_timestamp();
        let r = cookie_from_set_cookie(host.as_str(), path.as_str(), header, &parsed, now);
        proof {
            let ps = parsed@;
            assert(parsed_fits(header@, ps));
            let hp = url_host_and_path(url@).unwrap();
            assert(hp.0 == host@ && hp.1 == path@);
            assert(cookie_view_of(r) == cookie_of_set_cookie(hp.0, hp.1, header@, ps, now));
        }
        r
    }
}

} // verus!
