use pixiv_downloader::cookies::{Cookie, CookieJar};
use pixiv_downloader::set_cookie::{cookie_from_set_cookie, expires_texts, has_big_zone_offset};

fn sample() -> Cookie {
    Cookie::new("test", "de", "example.com", true, "/", false, None)
}

#[test]
fn test_cookie_jar_text_roundtrip() {
    let mut jar = CookieJar::new();
    jar.add(sample());
    let text = jar.to_netscape_string();
    let mut jar2 = CookieJar::new();
    assert!(jar2.read_text(&text));
    assert_eq!(jar2.get("test").unwrap().value(), "de");
    jar2.add(Cookie::new("test2", "de", "example.com", true, "/", false, None));
    let text2 = jar2.to_netscape_string();
    let mut jar3 = CookieJar::new();
    assert!(jar3.read_text(&text2));
    assert_eq!(jar3.get("test").unwrap().value(), "de");
    assert_eq!(jar3.get("test2").unwrap().value(), "de");
    assert_eq!(jar3.len(), 2);
}

#[test]
fn test_netscape_line() {
    let c = Cookie::new("n", "v", ".pixiv.net", true, "/", true, Some(1700000000));
    assert_eq!(c.to_netscape_str(), ".pixiv.net\tTRUE\t/\tTRUE\t1700000000\tn\tv\n");
    let d = sample();
    assert_eq!(d.to_netscape_str(), "example.com\tTRUE\t/\tFALSE\t0\ttest\tde\n");
    let e = Cookie::new("n", "v", "a.com", false, "/p", false, Some(-5));
    assert_eq!(e.to_netscape_str(), "a.com\tFALSE\t/p\tFALSE\t-5\tn\tv\n");
    assert_eq!(e.get_name_value(), "n=v;");
}

#[test]
fn test_from_netscape_line() {
    let c = Cookie::from_netscape_line("  a.com\tFALSE\t/\tTRUE\t 42 \tk\tv  ").unwrap().unwrap();
    assert_eq!(c.domain(), "a.com");
    assert_eq!(c.path(), "/");
    assert_eq!(c.name(), "k");
    assert_eq!(c.value(), "v");
    assert_eq!(c.expired_time(), 42);
    assert!(Cookie::from_netscape_line("# a comment").unwrap().is_none());
    assert!(Cookie::from_netscape_line("a.com\tFALSE\t/").is_err());
    assert!(Cookie::from_netscape_line("a.com\tFALSE\t/\tTRUE\tsoon\tk\tv").is_err());
}

#[test]
fn test_read_text_failure_keeps_read_cookies() {
    let mut jar = CookieJar::new();
    let text = "a.com\tFALSE\t/\tFALSE\t0\tk\tv\nbroken line\nb.com\tFALSE\t/\tFALSE\t0\tk2\tv2\n";
    assert!(!jar.read_text_at(text, 0, 0));
    assert_eq!(jar.len(), 1);
    assert_eq!(jar.get("k").unwrap().domain(), "a.com");
    assert!(jar.get("k2").is_none());
}

#[test]
fn test_read_text_drops_expired() {
    let mut jar = CookieJar::new();
    let text = "# Netscape HTTP Cookie File\na.com\tFALSE\t/\tFALSE\t100\told\tv\na.com\tFALSE\t/\tFALSE\t300\tnew\tv\n";
    assert!(jar.read_text_at(text, 200, 0));
    assert_eq!(jar.len(), 1);
    assert!(jar.get("old").is_none());
    assert!(jar.get("new").is_some());
}

#[test]
fn test_jar_add_replaces_same_key() {
    let mut jar = CookieJar::new();
    jar.add(Cookie::new("a", "1", "x.com", false, "/", false, None));
    jar.add(Cookie::new("a", "2", "y.com", false, "/", false, None));
    jar.add(Cookie::new("a", "3", "x.com", false, "/", false, None));
    assert_eq!(jar.len(), 2);
    assert_eq!(jar.cookies()[0].value(), "3");
    assert_eq!(jar.cookies()[1].value(), "2");
    assert_eq!(jar.get("a").unwrap().value(), "3");
    assert!(jar.keys_unique());
    jar.clear();
    assert_eq!(jar.len(), 0);
}

#[test]
fn test_check_expired_at() {
    let mut jar = CookieJar::new();
    jar.add(Cookie::new("a", "1", "x.com", false, "/", false, Some(10)));
    jar.add(Cookie::new("b", "1", "x.com", false, "/", false, None));
    jar.add(Cookie::new("c", "1", "x.com", false, "/", false, Some(20)));
    jar.check_expired_at(10, 0);
    assert_eq!(jar.len(), 3);
    jar.check_expired_at(10, 1);
    assert_eq!(jar.len(), 2);
    assert_eq!(jar.cookies()[0].name(), "b");
    assert_eq!(jar.cookies()[1].name(), "c");
    jar.check_expired();
    assert_eq!(jar.len(), 1);
}

#[test]
fn test_cookie_expiry() {
    assert!(Cookie::new("a", "1", "x.com", false, "/", false, Some(1)).is_expired());
    assert!(!sample().is_expired());
    let c = Cookie::new("a", "1", "x.com", false, "/", false, Some(5));
    assert!(!c.is_expired_at(5, 0));
    assert!(c.is_expired_at(5, 1));
    assert!(c.is_expired_at(6, 0));
}

#[test]
fn test_cookie_matched() {
    let c = sample();
    assert!(c.matched("https://example.com/a"));
    assert!(c.matched("https://www.example.com/"));
    assert!(!c.matched("https://other.com/"));
    assert!(!c.matched("https://badexample.com/"));
    assert!(!c.matched("not a url"));
    let d = Cookie::new("a", "1", ".pixiv.net", false, "/ajax", false, None);
    assert!(d.matched("https://pixiv.net/ajax/x"));
    assert!(d.matched("https://www.pixiv.net/ajax"));
    assert!(!d.matched("https://www.pixiv.net/artworks"));
    let e = Cookie::new("a", "1", "pixiv.net", false, "/", false, None);
    assert!(e.matched("https://pixiv.net/"));
    assert!(!e.matched("https://www.pixiv.net/"));
    assert!(!Cookie::new("a", "1", "x.com", false, "/", false, Some(1)).matched("https://x.com/"));
    assert!(e.matched_at("pixiv.net", "/a", 0, 0));
    assert!(c.is_same_key(&Cookie::new("test", "zz", "example.com", false, "/x", true, Some(3))));
    assert!(!c.is_same_key(&Cookie::new("test", "de", "example.org", true, "/", false, None)));
}

#[test]
fn test_cookie_from_set_cookie_parts() {
    let c = cookie_from_set_cookie(
        "example.com",
        "/a/b",
        "sid=abc; Path=/x; Domain=.example.com; HttpOnly",
        &vec![],
        1000,
    )
    .unwrap();
    assert_eq!(c.name(), "sid");
    assert_eq!(c.value(), "abc");
    assert_eq!(c.path(), "/a/b");
    assert_eq!(c.domain(), ".example.com");
    assert!(c.matched_at("www.example.com", "/a/b/c", 0, 0));
    assert_eq!(c.expired_time(), 0);
    let m = cookie_from_set_cookie("a.com", "/", "k=v; x; Max-Age=60", &vec![], 1000).unwrap();
    assert_eq!(m.expired_time(), 1060);
    let e = cookie_from_set_cookie(
        "a.com",
        "/",
        "k=v; x; Expires=Wed, 21 Oct 2015 07:28:00 GMT; path=/p",
        &vec![Some(1445412480), None],
        1000,
    )
    .unwrap();
    assert_eq!(e.expired_time(), 1445412480);
    assert_eq!(e.path(), "/p");
    assert!(cookie_from_set_cookie("a.com", "/", "novalue; x", &vec![], 0).is_none());
    assert!(cookie_from_set_cookie("a.com", "/", "k=v; x; Expires=never", &vec![None], 0).is_none());
    assert!(cookie_from_set_cookie("a.com", "/", "k=v; x; Max-Age=soon", &vec![], 0).is_none());
    assert!(cookie_from_set_cookie("a.com", "/", "k=v; x; Max-Age=1", &vec![], i64::MAX).is_none());
    assert!(cookie_from_set_cookie("a.com", "/", "k=v; x; Path=rel", &vec![], 0).is_none());
    assert!(cookie_from_set_cookie("a.com", "/", "k=v; x; Domain", &vec![], 0).is_none());
    let h = cookie_from_set_cookie("a.com", "/", "k=v; x; httponly; Secure; SameSite=Lax", &vec![], 0);
    assert!(h.is_some());
}

#[test]
fn test_cookie_from_set_cookie() {
    let c = Cookie::from_set_cookie(
        "https://www.pixiv.net/ajax",
        "PHPSESSID=123_abc; x; Expires=Wed, 21 Oct 2015 07:28:00 GMT; Domain=.pixiv.net",
    )
    .unwrap();
    assert_eq!(c.name(), "PHPSESSID");
    assert_eq!(c.value(), "123_abc");
    assert_eq!(c.domain(), ".pixiv.net");
    assert_eq!(c.path(), "/ajax");
    assert_eq!(c.expired_time(), 1445412480);
    let d = Cookie::from_set_cookie("https://a.com/", "k=v").unwrap();
    assert_eq!(d.domain(), "a.com");
    assert_eq!(d.path(), "/");
    assert!(Cookie::from_set_cookie("not a url", "k=v").is_none());
    assert!(Cookie::from_set_cookie("https://a.com/", "k=v; x; Expires=not a date").is_none());
}

#[test]
fn test_check_expired_twice() {
    let mut jar = CookieJar::new();
    jar.add(Cookie::new("a", "1", "x.com", false, "/", false, Some(10)));
    jar.add(Cookie::new("b", "1", "x.com", false, "/", false, Some(30)));
    jar.check_expired_at(20, 0);
    let once = jar.to_netscape_string_at(20, 0);
    jar.check_expired_at(20, 0);
    assert_eq!(jar.to_netscape_string_at(20, 0), once);
    assert_eq!(once, "x.com\tFALSE\t/\tFALSE\t30\tb\t1\n");
}

#[test]
fn test_expires_texts() {
    let t = expires_texts("k=v; x; EXPIRES=Wed, 21 Oct 2015 07:28:00 GMT; Path=/; expires; Max-Age=3");
    assert_eq!(
        t,
        vec![Some(String::from("Wed, 21 Oct 2015 07:28:00 GMT")), None, None, None]
    );
    assert_eq!(expires_texts("k=v; Expires=x"), Vec::<Option<String>>::new());
}

#[test]
fn test_big_zone_offset() {
    let c = |s: &str| s.chars().collect::<Vec<char>>();
    assert!(has_big_zone_offset(&c("2014-04-26 13:13:43 +9900")));
    assert!(has_big_zone_offset(&c("2014-04-26 13:13:43 -24:00")));
    assert!(!has_big_zone_offset(&c("2014-04-26 13:13:43 +0900")));
    assert!(!has_big_zone_offset(&c("2014-12-31")));
    assert!(!has_big_zone_offset(&c("Wed, 21 Oct 2015 07:28:00 GMT")));
    assert!(Cookie::from_set_cookie("https://a.b/", "a=b; x; Expires=2014-04-26 13:13:43 +9900").is_none());
}
