use pixiv_downloader::artwork::{
    api_order, app_download_plan, artwork_object, page_file_name, web_download_plan, DownloadPlan,
    PlanError, illust_kind, metadata_file_name, original_link, page_count,
    page_links, ugoira_frames_file_name, ugoira_output_file_name, ugoira_source, ApiOrder,
    IllustKind, add_history_wanted, creator_fetch_needed, ugoira_frames, web_description,
};
use pixiv_downloader::json_value::Json;

fn s(x: &str) -> Json {
    Json::Str(String::from(x))
}

fn obj(entries: Vec<(&str, Json)>) -> Json {
    Json::Object(entries.into_iter().map(|(k, v)| (String::from(k), v)).collect())
}

fn page(link: &str) -> Json {
    obj(vec![("urls", obj(vec![("original", s(link))]))])
}

#[test]
fn test_artwork_object() {
    let art = obj(vec![("pageCount", Json::Number(Some(3))), ("illustType", Json::Number(Some(2)))]);
    let web = obj(vec![("illust", obj(vec![("42", art)]))]);
    let a = artwork_object(&web, false, 42).unwrap();
    assert_eq!(page_count(a), Some(3));
    assert_eq!(illust_kind(a), IllustKind::Ugoira);
    assert!(artwork_object(&web, false, 43).is_none());
    let b = artwork_object(&web, true, 43).unwrap();
    assert_eq!(page_count(b), None);
    assert_eq!(illust_kind(b), IllustKind::Missing);
}

#[test]
fn test_page_count_and_kind() {
    assert_eq!(page_count(&obj(vec![("pageCount", Json::Number(Some(-1)))])), None);
    assert_eq!(page_count(&obj(vec![("pageCount", Json::Number(None))])), None);
    assert_eq!(page_count(&obj(vec![("pageCount", s("1"))])), None);
    assert_eq!(illust_kind(&obj(vec![("illustType", Json::Number(Some(0)))])), IllustKind::Illust);
    assert_eq!(illust_kind(&obj(vec![("illustType", Json::Number(Some(1)))])), IllustKind::Manga);
    assert_eq!(illust_kind(&obj(vec![("illustType", Json::Number(Some(7)))])), IllustKind::Unknown(7));
}

#[test]
fn test_links() {
    assert_eq!(original_link(&page("https://i.pximg.net/a.png")).unwrap(), "https://i.pximg.net/a.png");
    assert!(original_link(&obj(vec![])).is_none());
    let pages = Json::Array(vec![page("a"), obj(vec![("urls", obj(vec![]))]), page("c")]);
    assert_eq!(page_links(&pages), vec![Some(String::from("a")), None, Some(String::from("c"))]);
    assert_eq!(page_links(&Json::Null), Vec::<Option<String>>::new());
    assert_eq!(ugoira_source(&obj(vec![("originalSrc", s("z.zip"))])).unwrap(), "z.zip");
    assert!(ugoira_source(&Json::Null).is_none());
}

#[test]
fn test_api_order_and_names() {
    assert_eq!(api_order(true, true), ApiOrder::AppThenWeb);
    assert_eq!(api_order(true, false), ApiOrder::WebThenApp);
    assert_eq!(api_order(false, true), ApiOrder::WebOnly);
    assert_eq!(metadata_file_name(99014872), "99014872.json");
    assert_eq!(ugoira_frames_file_name(7), "7_frames.json");
    assert_eq!(ugoira_output_file_name(0), "0.mp4");
}

#[test]
fn test_page_file_name() {
    assert_eq!(page_file_name("123", 0, 12, "png"), "123_01.png");
    assert_eq!(page_file_name("123", 11, 12, "png"), "123_12.png");
    assert_eq!(page_file_name("p", 4, 5, "jpg"), "p_5.jpg");
    assert_eq!(page_file_name("p", 9, 100, "jpg"), "p_010.jpg");
    assert_eq!(page_file_name("p", 99, 5, "gif"), "p_100.gif");
}

fn links(p: Result<DownloadPlan, PlanError>) -> Vec<Option<String>> {
    match p {
        Ok(DownloadPlan::Pages(v)) => v,
        _ => panic!("several pages"),
    }
}

#[test]
fn test_web_download_plan() {
    let art = |n: i64, t: i64| {
        obj(vec![
            ("pageCount", Json::Number(Some(n))),
            ("illustType", Json::Number(Some(t))),
            ("urls", obj(vec![("original", s("one.png"))])),
        ])
    };
    match web_download_plan(&art(1, 0), true, 5, None) {
        Ok(DownloadPlan::Single(l)) => assert_eq!(l, "one.png"),
        _ => panic!("one page"),
    }
    assert!(matches!(web_download_plan(&art(2, 0), true, 5, None), Err(PlanError::NoPagesData)));
    assert!(matches!(web_download_plan(&art(1, 2), true, 5, None), Ok(DownloadPlan::Ugoira)));
    assert!(matches!(web_download_plan(&art(3, 2), true, 5, None), Err(PlanError::NoPagesData)));
    let pages = Json::Array(vec![page("a"), obj(vec![]), page("c")]);
    assert_eq!(
        links(web_download_plan(&art(3, 1), true, 5, Some(&pages))),
        vec![Some(String::from("a")), None, Some(String::from("c"))]
    );
    let web = obj(vec![("illust", obj(vec![("5", art(1, 0))]))]);
    assert!(matches!(web_download_plan(&web, false, 5, None), Ok(DownloadPlan::Single(_))));
    assert!(matches!(web_download_plan(&web, false, 6, None), Err(PlanError::NoPageCount)));
    let nolink = obj(vec![("pageCount", Json::Number(Some(1)))]);
    assert!(matches!(web_download_plan(&nolink, true, 5, None), Err(PlanError::NoLink)));
    assert_eq!(PlanError::NoLink.message(), "Failed to get original picture's link.");
}

#[test]
fn test_app_download_plan() {
    let single = obj(vec![
        ("type", s("illust")),
        ("page_count", Json::Number(Some(1))),
        ("meta_single_page", obj(vec![("original_image_url", s("o.jpg"))])),
    ]);
    match app_download_plan(&single) {
        Ok(DownloadPlan::Single(l)) => assert_eq!(l, "o.jpg"),
        _ => panic!("one page"),
    }
    let multi = obj(vec![
        ("type", s("manga")),
        ("page_count", Json::Number(Some(2))),
        (
            "meta_pages",
            Json::Array(vec![
                obj(vec![("image_urls", obj(vec![("original", s("p0.jpg"))]))]),
                obj(vec![]),
            ]),
        ),
    ]);
    assert_eq!(links(app_download_plan(&multi)), vec![Some(String::from("p0.jpg")), None]);
    assert!(matches!(app_download_plan(&obj(vec![("type", s("ugoira"))])), Ok(DownloadPlan::Ugoira)));
    assert!(matches!(app_download_plan(&obj(vec![("type", s("illust"))])), Err(PlanError::NoPageCount)));
    assert!(matches!(
        app_download_plan(&obj(vec![("page_count", Json::Number(Some(1)))])),
        Err(PlanError::NoLink)
    ));
}

#[test]
fn test_ugoira_frames() {
    let frames = Json::Array(vec![Json::Object(vec![
        (String::from("file"), s("000000.jpg")),
        (String::from("delay"), Json::Number(Some(100))),
    ])]);
    let data = Json::Object(vec![
        (String::from("originalSrc"), s("https://i.pximg.net/a.zip")),
        (String::from("frames"), frames),
    ]);
    match ugoira_frames(&data) {
        Some(Json::Array(v)) => assert_eq!(v.len(), 1),
        _ => panic!("the frames are an array"),
    }
    assert!(ugoira_frames(&Json::Object(vec![])).is_none());
}

#[test]
fn test_web_description() {
    let both = Json::Object(vec![
        (String::from("description"), s("d")),
        (String::from("illustComment"), s("c")),
    ]);
    assert_eq!(web_description(&both).map(|x| x.as_str()), Some("d"));
    let comment = Json::Object(vec![(String::from("illustComment"), s("c"))]);
    assert_eq!(web_description(&comment).map(|x| x.as_str()), Some("c"));
    assert!(web_description(&Json::Object(vec![])).is_none());
}

#[test]
fn test_app_side_decisions() {
    assert!(add_history_wanted(true, false));
    assert!(!add_history_wanted(true, true));
    assert!(!add_history_wanted(false, false));
    assert!(!creator_fetch_needed(Some("abc"), "abc"));
    assert!(creator_fetch_needed(Some("abd"), "abc"));
    assert!(creator_fetch_needed(None, "abc"));
}
