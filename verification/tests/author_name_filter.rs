use pixiv_downloader::author_name_filter::{
    check_author_name_filters, AuthorFiler, AuthorNameFilter, AuthorNameFilterError, RegexFilter,
};
use pixiv_downloader::json_value::Json;

fn s(x: &str) -> Json {
    Json::Str(String::from(x))
}

fn obj(entries: Vec<(&str, Json)>) -> Json {
    Json::Object(entries.into_iter().map(|(k, v)| (String::from(k), v)).collect())
}

#[test]
fn test_author_name_filter() {
    assert!(AuthorNameFilter::from("s") == AuthorNameFilter::from("s"));
    assert!(AuthorNameFilter::regex("s").unwrap() == AuthorNameFilter::regex("s").unwrap());
    let l = AuthorNameFilter::from_json(&Json::Array(vec![s("🌸")])).unwrap();
    assert!(l == vec![AuthorNameFilter::from("🌸")]);
    assert_eq!(l[0].filter("moco🌸お仕事募集中"), String::from("moco"));
    let r = AuthorNameFilter::regex(".?お仕事募集中").unwrap();
    assert_eq!(r.filter("moco🌸お仕事募集中"), String::from("moco"));
    let l = AuthorNameFilter::from_json(&Json::Array(vec![
        obj(vec![("type", s("simple")), ("rule", s("🌸"))]),
        obj(vec![("type", s("regex")), ("rule", s(".?お仕事募集中"))]),
    ]))
    .unwrap();
    assert!(l == vec![AuthorNameFilter::from("🌸"), r]);
    assert_eq!(l.filter("moco<お仕事募集中🌸お仕事募集中"), String::from("moco<お仕事募集中"));
    assert_eq!(l.filter("sss@ss@お仕事募集中"), "sss@ss");
    assert_eq!(l.filter("sss🌸ss🌸お仕事募集中"), "sss🌸ss");
}

#[test]
fn test_simple_filter_edges() {
    let f = AuthorNameFilter::from("@");
    assert_eq!(f.filter("a@b@c"), "a@b");
    assert_eq!(f.filter("abc"), "abc");
    assert_eq!(f.filter("@"), "");
    assert_eq!(AuthorNameFilter::from("").filter("abc"), "abc");
    assert_eq!(AuthorNameFilter::from("abcd").filter("abc"), "abc");
    let none: Vec<AuthorNameFilter> = vec![];
    assert_eq!(none.filter("abc"), "abc");
    assert!(AuthorNameFilter::from("a") != AuthorNameFilter::regex("a").unwrap());
    assert!(AuthorNameFilter::from("a") != AuthorNameFilter::from("b"));
}

#[test]
fn test_regex_filter() {
    let f = AuthorNameFilter::regex("[0-9]+").unwrap();
    assert_eq!(f.filter("a1b22c"), "abc");
    match AuthorNameFilter::regex("(") {
        Err(AuthorNameFilterError::Regex(_)) => {}
        _ => panic!("an unbalanced group does not compile"),
    }
    let g = RegexFilter::new("x+").unwrap();
    assert_eq!(g.as_str(), "x+");
    let h = g.clone();
    assert_eq!(h.as_str(), "x+");
    let c = f.clone();
    assert!(c == f);
}

#[test]
fn test_filters_from_json_errors() {
    let msg = |j: Json| match AuthorNameFilter::from_json(&j) {
        Err(AuthorNameFilterError::String(m)) => m,
        _ => String::from("(no message)"),
    };
    assert_eq!(msg(s("🌸")), "Unsupported JSON type.");
    assert_eq!(msg(Json::Array(vec![Json::Null])), "Unsupported JSON type.");
    assert_eq!(msg(Json::Array(vec![obj(vec![("rule", s("a"))])])), "Failed to get filter's type.");
    assert_eq!(msg(Json::Array(vec![obj(vec![("type", s("simple"))])])), "Failed to get filter's rule.");
    assert_eq!(
        msg(Json::Array(vec![obj(vec![("type", s("Glob")), ("rule", s("a"))])])),
        "Unknown filter's type: glob"
    );
    let upper = AuthorNameFilter::from_json(&Json::Array(vec![obj(vec![
        ("type", s("SIMPLE")),
        ("rule", s("a")),
    ])]))
    .unwrap();
    assert!(upper == vec![AuthorNameFilter::from("a")]);
    match AuthorNameFilter::from_json(&Json::Array(vec![
        s("ok"),
        obj(vec![("type", s("regex")), ("rule", s("("))]),
        Json::Null,
    ])) {
        Err(AuthorNameFilterError::Regex(_)) => {}
        _ => panic!("the first bad member decides the error"),
    }
    assert!(check_author_name_filters(&Json::Array(vec![s("a"), s("b")])));
    assert!(!check_author_name_filters(&Json::Boolean(true)));
    assert!(check_author_name_filters(&Json::Array(vec![])));
}
