use pixiv_downloader::author_name_filter::AuthorNameFilter;
use pixiv_downloader::data::data::{AiType, PixivData};
use pixiv_downloader::data::video::get_video_metas;
use pixiv_downloader::data::fanbox::FanboxData;
use pixiv_downloader::data::exif::ExifDataSource;
use pixiv_downloader::data::json::JSONDataFile;
use pixiv_downloader::db::config::{check_db_config, PixivDownloaderDbConfig, PixivDownloaderDbConfigError};
use pixiv_downloader::db::pixiv_artworks::{PixivArtwork, PixivArtworkLock};
use pixiv_downloader::db::push_task::{
    default_true, defualt_author_locations, AuthorLocation, EveryPushConfig, EveryPushTextType,
    PixivRestrictType, PushConfig, PushTask, PushTaskConfig, PushTaskPixivAction,
    PushTaskPixivConfig,
};
use pixiv_downloader::downloader::enums::{DownloaderResult, DownloaderStatus};
use pixiv_downloader::downloader::pd_file::file::{PdFile, PdFileResult};
use pixiv_downloader::downloader::plan::{
    first_response_action, is_error_status, open_action, watch_end,
    OpenAction, WatchEnd, need_reget, need_reget_with, part_range,
    part_response, part_write_offset, range_between, range_from, resume_start, round_action,
    start_after_seek, stream_action, takes_file_size, task_finish, tasks_to_start,
    ContentRangeInfo, FirstResponseAction, PartResponse, RoundAction, StreamAction, StreamEvent,
    TaskFinish,
};
use pixiv_downloader::downloader::state::DownloaderState;
use pixiv_downloader::exif::{ExifByteOrder, ExifTypeID};
use pixiv_downloader::ext::replace::ReplaceWith;
use pixiv_downloader::ext::try_err::{TryErr, TryErr2};
use pixiv_downloader::ext::use_or_not::{ToBool, UseOrNot};
use pixiv_downloader::json_value::Json;
use pixiv_downloader::text::{decimal_string, parse_i64_chars, trim_chars};

fn s(x: &str) -> Json {
    Json::Str(String::from(x))
}

fn obj(entries: Vec<(&str, Json)>) -> Json {
    Json::Object(entries.into_iter().map(|(k, v)| (String::from(k), v)).collect())
}

fn chars(x: &str) -> Vec<char> {
    x.chars().collect()
}

#[test]
fn test_text_helpers() {
    assert_eq!(decimal_string(0), "0");
    assert_eq!(decimal_string(1234567890), "1234567890");
    assert_eq!(parse_i64_chars(&chars("-9223372036854775808")), Some(i64::MIN));
    assert_eq!(parse_i64_chars(&chars("9223372036854775808")), None);
    assert_eq!(parse_i64_chars(&chars("+12")), Some(12));
    assert_eq!(parse_i64_chars(&chars("-")), None);
    assert_eq!(parse_i64_chars(&chars("1a")), None);
    assert_eq!(trim_chars(&chars(" \t a b \u{3000}")), chars("a b"));
    assert_eq!(trim_chars(&chars("   ")), chars(""));
}

#[test]
fn test_db_config() {
    let c = PixivDownloaderDbConfig::new(&obj(vec![("type", s("sqlite")), ("path", s("a.db"))])).unwrap();
    match &c {
        PixivDownloaderDbConfig::Sqlite(s) => assert_eq!(s.path, "a.db"),
        _ => panic!("a sqlite configuration"),
    }
    assert!(!c.is_none());
    match PixivDownloaderDbConfig::new(&obj(vec![("type", s("sqlite"))])) {
        Err(PixivDownloaderDbConfigError::MissingField(f)) => assert_eq!(f, "path"),
        _ => panic!("the path is missing"),
    }
    match PixivDownloaderDbConfig::new(&obj(vec![("type", s("mysql"))])) {
        Err(e) => assert_eq!(e.message(), "Unknown database type."),
        _ => panic!("an unknown database type"),
    }
    assert!(PixivDownloaderDbConfig::new(&Json::Null).is_err());
    assert!(check_db_config(&obj(vec![("type", s("sqlite")), ("path", s("b"))])));
    assert!(!check_db_config(&obj(vec![("path", s("b"))])));
    match PixivDownloaderDbConfig::default() {
        PixivDownloaderDbConfig::Sqlite(s) => assert_eq!(s.path, "pixiv_downloader.db"),
        _ => panic!("the default is sqlite"),
    }
    assert!(PixivDownloaderDbConfig::Unset.is_none());
    assert_eq!(
        PixivDownloaderDbConfigError::MissingField(String::from("path")).message(),
        "Missing field: path"
    );
}

#[test]
fn test_push_task_defaults() {
    assert_eq!(defualt_author_locations(), vec![AuthorLocation::Top]);
    assert!(default_true());
}

#[test]
fn test_artwork_lock() {
    let a = PixivArtwork {
        id: 1,
        title: String::from("t"),
        author: String::from("a"),
        uid: 2,
        description: String::new(),
        count: 1,
        is_nsfw: false,
        lock: 1 | 4,
    };
    assert!(a.is_locked(PixivArtworkLock::Title));
    assert!(!a.is_locked(PixivArtworkLock::Author));
    assert!(a.is_locked(PixivArtworkLock::Description));
    assert!(!a.is_locked(PixivArtworkLock::IsNsfw));
    assert_eq!(PixivArtworkLock::IsNsfw.bit(), 8);
}

#[test]
fn test_use_or_not() {
    assert_eq!(UseOrNot::parse("YES"), Ok(UseOrNot::Yes));
    assert_eq!(UseOrNot::parse("true"), Ok(UseOrNot::Yes));
    assert_eq!(UseOrNot::parse("False"), Ok(UseOrNot::No));
    assert_eq!(UseOrNot::parse("auto"), Ok(UseOrNot::Auto));
    assert_eq!(UseOrNot::parse("maybe"), Err("Failed to parse value."));
    assert_eq!("no".parse::<UseOrNot>(), Ok(UseOrNot::No));
    assert_eq!(UseOrNot::from(true), UseOrNot::Yes);
    assert_eq!(UseOrNot::default(), UseOrNot::Auto);
    assert_eq!(UseOrNot::from_json(&Json::Boolean(false)), Ok(UseOrNot::No));
    assert_eq!(UseOrNot::from_json(&Json::Null), Err("Unsupported JSON type."));
    assert_eq!(UseOrNot::from_json(&s("Auto")), Ok(UseOrNot::Auto));
    assert_eq!(UseOrNot::from_json(&s("TRUE")), Ok(UseOrNot::Yes));
    assert_eq!(UseOrNot::from_json(&s("maybe")), Err("Failed to parse value."));
    assert!(UseOrNot::Auto.enabled(true));
    assert!(!UseOrNot::Auto.enabled(false));
    assert!(UseOrNot::Yes.enabled(false));
    assert!(!UseOrNot::No.enabled(true));
}

struct Detecting(UseOrNot, bool);

impl ToBool for Detecting {
    fn use_or_not(&self) -> UseOrNot {
        self.0
    }
    fn detect(&self) -> bool {
        self.1
    }
}

#[test]
fn test_to_bool() {
    assert!(Detecting(UseOrNot::Auto, true).to_bool());
    assert!(!Detecting(UseOrNot::Auto, false).to_bool());
    assert!(Detecting(UseOrNot::Yes, false).to_bool());
    assert!(!Detecting(UseOrNot::No, true).to_bool());
}

#[test]
fn test_try_err_and_replace() {
    assert_eq!(Some(1).try_err("e"), Ok(1));
    assert_eq!(None::<i32>.try_err("e"), Err("e"));
    assert_eq!(Ok::<i32, u8>(3).try_err("e"), Ok(3));
    assert_eq!(Err::<i32, u8>(3).try_err("e"), Err("e"));
    assert_eq!(true.try_err(5), Ok(()));
    assert_eq!(false.try_err(5), Err(5));
    assert_eq!(Some(String::from("a")).try_err2(0), Ok(String::from("a")));
    assert_eq!(None::<String>.try_err2(0), Err(0));
    let mut x = 1;
    assert_eq!(x.replace_with(2), 1);
    assert_eq!(x, 2);
}

#[test]
fn test_content_range_decisions() {
    assert!(!need_reget(Some(b"bytes 0-9/100"), 100, 0));
    assert!(!need_reget(Some(b"bytes 0-9/100"), 0, 0));
    assert!(need_reget(Some(b"bytes 0-9/100"), 50, 0));
    assert!(need_reget(Some(b"bytes 5-9/100"), 100, 0));
    assert!(!need_reget(Some(b"bytes 5-9/*"), 100, 5));
    assert!(need_reget(Some(b"garbage"), 100, 0));
    assert!(!need_reget(Some(b"bytes */100"), 100, 0));
    assert!(need_reget(None, 100, 0));
    assert!(!need_reget_with(Some(ContentRangeInfo::Unsatisfied { complete_length: 3 }), 1, 1));
    assert_eq!(first_response_action(416, None, 0, 0), FirstResponseAction::RequestAgain);
    assert_eq!(first_response_action(206, None, 0, 5), FirstResponseAction::ClearAndRequestAgain);
    assert_eq!(first_response_action(206, Some(b"bytes 5-9/10"), 10, 5), FirstResponseAction::Proceed);
    assert_eq!(first_response_action(200, None, 0, 0), FirstResponseAction::Proceed);
}

#[test]
fn test_range_decisions() {
    assert_eq!(resume_start(true, 42), 42);
    assert_eq!(resume_start(false, 42), 0);
    assert_eq!(start_after_seek(42, Some(42)), (42, false));
    assert_eq!(start_after_seek(42, Some(40)), (0, true));
    assert_eq!(start_after_seek(42, None), (0, true));
    assert_eq!(start_after_seek(0, None), (0, false));
    assert_eq!(range_from(100), "bytes=100-");
    assert_eq!(range_between(0, 65535), "bytes=0-65535");
    assert_eq!(part_range(0x10000, 2, 200000), (131072, 196607));
    assert_eq!(part_range(0x10000, 3, 200000), (196608, 200000));
    assert_eq!(part_write_offset(0x10000, 2, 10), 131082);
    assert!(takes_file_size(0, 200));
    assert!(!takes_file_size(0, 206));
    assert!(!takes_file_size(5, 200));
    assert!(is_error_status(404));
    assert!(!is_error_status(206));
    assert_eq!(part_response(200), PartResponse::NoRangeSupport);
    assert_eq!(part_response(416), PartResponse::NoRangeSupport);
    assert_eq!(part_response(500), PartResponse::Failed(500));
    assert_eq!(part_response(206), PartResponse::Proceed);
}

#[test]
fn test_stream_and_task_decisions() {
    assert_eq!(stream_action(false, false, StreamEvent::Data(3)), StreamAction::Append(3));
    assert_eq!(stream_action(false, true, StreamEvent::End), StreamAction::Complete);
    assert_eq!(stream_action(false, false, StreamEvent::TimedOut), StreamAction::ClearAndFail);
    assert_eq!(stream_action(true, false, StreamEvent::Data(3)), StreamAction::Stop);
    assert_eq!(stream_action(true, true, StreamEvent::Data(3)), StreamAction::WritePart(3));
    assert_eq!(stream_action(true, true, StreamEvent::Failed), StreamAction::Fail);
    assert_eq!(stream_action(true, true, StreamEvent::End), StreamAction::PartDone);
    assert_eq!(task_finish(false, false, true), TaskFinish::Downloaded);
    assert_eq!(task_finish(true, false, true), TaskFinish::Nothing);
    assert_eq!(task_finish(false, false, false), TaskFinish::AskRetry);
    assert_eq!(task_finish(true, true, false), TaskFinish::AskRetry);
    assert_eq!(task_finish(true, false, false), TaskFinish::Nothing);
    assert_eq!(round_action(false, false, 0, 8, Some(5), false), RoundAction::RestartSimple(5));
    assert_eq!(round_action(false, false, 0, 8, None, false), RoundAction::Wait);
    assert_eq!(round_action(true, true, 0, 8, Some(5), false), RoundAction::RestartFirst(5));
    assert_eq!(round_action(true, true, 1, 8, Some(5), false), RoundAction::Wait);
    assert_eq!(
        round_action(true, false, 3, 8, None, true),
        RoundAction::Parts { add_tasks: true, complete: true }
    );
    assert_eq!(
        round_action(true, false, 8, 8, None, false),
        RoundAction::Parts { add_tasks: false, complete: false }
    );
    assert_eq!(tasks_to_start(8, 3), 5);
}

#[test]
fn test_downloader_state() {
    let mut d = DownloaderState::new();
    assert!(d.is_created());
    assert_eq!(d.set_downloading(), DownloaderStatus::Created);
    assert!(d.is_downloading());
    assert_eq!(d.get_retry_duration(), Some(3000));
    assert_eq!(d.get_retry_duration(), Some(3000));
    assert_eq!(d.get_retry_duration(), Some(3000));
    assert_eq!(d.get_retry_duration(), None);
    d.set_max_retry_count(-1);
    d.set_retry_interval(vec![1, 2, 3]);
    assert_eq!(d.get_retry_duration(), Some(3));
    d.set_max_retry_count(5);
    assert_eq!(d.get_retry_duration(), Some(3));
    d.set_max_retry_count(1);
    assert_eq!(d.get_retry_duration(), None);
    d.set_panic();
    assert!(d.is_panic());
    assert_eq!(d.set_downloaded(), DownloaderStatus::Panic);
    assert!(d.is_downloaded());
    let mut pd = PdFile::new();
    assert_eq!(d.get_part_size(&pd), 0x10000);
    assert!(!d.is_multi_threads(&pd));
    assert!(!d.enable_multiple_download(&pd));
    assert!(d.is_multi_threads(&pd));
    pd.set_file_size(10);
    assert!(d.enable_multiple_download(&pd));
    assert!(!d.is_multi_threads(&pd));
    assert_eq!(d.get_part_size(&pd), 0);
    d.fallback_to_simp();
    d.set_dropped();
    assert!(d.is_dropped());
    let r: DownloaderResult<u8> = DownloaderResult::Canceled;
    assert!(r.is_canceled());
    assert!(!DownloaderResult::Created(1u8).is_canceled());
}

#[test]
fn test_exif_numbers() {
    assert_eq!(ExifTypeID::String.int_value(), 0x10000);
    assert_eq!(ExifTypeID::from_int(18), Some(ExifTypeID::TiffIfd8));
    assert_eq!(ExifTypeID::from_int(14), None);
    assert_eq!(ExifTypeID::from_int(0x1ffff), Some(ExifTypeID::LastTypeId));
    assert_eq!(ExifByteOrder::from_int(2), Some(ExifByteOrder::Big));
    assert_eq!(ExifByteOrder::Little.int_value(), 1);
    assert_eq!(ExifByteOrder::from_int(3), None);
}

#[test]
fn test_pixiv_data() {
    let mut d = PixivData::new(99).unwrap();
    let v = obj(vec![
        ("illustTitle", s("T")),
        ("userName", s("moco🌸お仕事募集中")),
        ("illustComment", s("a &amp; b &lt;3")),
        (
            "tags",
            obj(vec![(
                "tags",
                Json::Array(vec![
                    obj(vec![("tag", s("x")), ("translation", obj(vec![("en", s("y"))]))]),
                    obj(vec![("tag", s("z"))]),
                    obj(vec![("other", s("w"))]),
                ]),
            )]),
        ),
    ]);
    let filters = vec![AuthorNameFilter::from("🌸")];
    d.from_web_page_ajax_data(&v, false, Some(&filters));
    assert_eq!(d.title.as_deref(), Some("T"));
    assert_eq!(d.author.as_deref(), Some("moco"));
    assert_eq!(d.description.as_deref(), Some("a & b <3"));
    assert_eq!(
        d.tags,
        Some(vec![(String::from("x"), Some(String::from("y"))), (String::from("z"), None)])
    );
    d.from_web_page_ajax_data(&obj(vec![("illustTitle", s("U")), ("description", s("bad &zz;"))]), false, None);
    assert_eq!(d.title.as_deref(), Some("T"));
    assert_eq!(d.tags, Some(vec![]));
    d.from_web_page_ajax_data(&obj(vec![("illustTitle", s("U")), ("description", s("bad &zz;"))]), true, None);
    assert_eq!(d.title.as_deref(), Some("U"));
    assert_eq!(d.description.as_deref(), Some("a & b <3"));
    let mut e = PixivData::new(7).unwrap();
    let page = obj(vec![("illust", obj(vec![("7", obj(vec![("userName", s("A"))]))]))]);
    e.from_web_page_data(&page, true, None);
    assert_eq!(e.author.as_deref(), Some("A"));
    assert_eq!(e.id, 7);
}

#[test]
fn test_json_data_file() {
    let mut f = JSONDataFile::new(5).unwrap();
    assert_eq!(f.id(), 5);
    assert!(f.get("a").is_none());
    f.add("a", Json::Boolean(true));
    f.add("b", s("x"));
    f.add("a", Json::Null);
    assert!(matches!(f.get("a"), Some(Json::Null)));
    assert!(matches!(f.get("b"), Some(Json::Str(x)) if x == "x"));
    assert!(f.get("c").is_none());
}

#[test]
fn test_json_value() {
    let v = obj(vec![("a", s("1")), ("a", s("2")), ("n", Json::Number(Some(3)))]);
    assert_eq!(v.field_str("a").map(|x| x.as_str()), Some("1"));
    assert!(v.field_str("n").is_none());
    assert!(v.field("missing").is_none());
    assert!(s("x").field("a").is_none());
    assert_eq!(Json::Array(vec![Json::Null, Json::Null]).members().len(), 2);
    assert_eq!(s("x").members().len(), 0);
    assert!(Json::Array(vec![]).is_array());
    assert_eq!(s("q").as_str().map(|x| x.as_str()), Some("q"));
}

#[test]
fn test_open_action() {
    assert_eq!(open_action(&PdFileResult::Created(PdFile::new()), Some(false)), OpenAction::Start);
    assert_eq!(open_action(&PdFileResult::ExistedOk(PdFile::new()), None), OpenAction::Resume);
    assert_eq!(open_action(&PdFileResult::TargetExisted, Some(false)), OpenAction::Cancel);
    assert_eq!(open_action(&PdFileResult::TargetExisted, Some(true)), OpenAction::RemoveAndReopen);
    assert_eq!(open_action(&PdFileResult::TargetExisted, None), OpenAction::Ask);
}

#[test]
fn test_watch_decisions() {
    let pd = PdFile::new();
    let mut d = DownloaderState::new();
    d.set_downloading();
    assert_eq!(watch_end(&d), None);
    assert_eq!(d.finish_task(&pd, false), Some(3000));
    assert!(d.is_downloading());
    assert_eq!(watch_end(&d), None);
    assert_eq!(d.finish_task(&pd, true), None);
    assert!(d.is_downloaded());
    assert_eq!(watch_end(&d), Some(WatchEnd::Finished { abort_tasks: false }));

    let mut d2 = DownloaderState::new();
    d2.set_downloading();
    d2.set_max_retry_count(0);
    assert_eq!(d2.finish_task(&pd, false), None);
    assert!(d2.is_panic());
    assert_eq!(watch_end(&d2), Some(WatchEnd::Finished { abort_tasks: true }));

    let mut d3 = DownloaderState::new();
    d3.set_downloading();
    assert!(!d3.enable_multiple_download(&pd));
    assert_eq!(d3.finish_task(&pd, true), None);
    assert!(d3.is_downloading());
    assert_eq!(d3.finish_task(&pd, false), Some(3000));
    let mut pd3 = PdFile::new();
    assert!(d3.complete_file(&mut pd3, false));
    assert!(pd3.is_completed());
    assert!(d3.is_downloaded());
    d3.set_dropped();
    assert_eq!(watch_end(&d3), Some(WatchEnd::Dropped));
}

#[test]
fn test_json_data_file_from_data() {
    let mut d = PixivData::new(3).unwrap();
    d.title = Some(String::from("T"));
    d.tags = Some(vec![(String::from("x"), Some(String::from("y"))), (String::from("z"), None)]);
    let f = JSONDataFile::from_data(&d);
    assert_eq!(f.id(), 3);
    assert!(matches!(f.get("title"), Some(Json::Str(t)) if t == "T"));
    assert!(f.get("author").is_none());
    assert!(f.get("description").is_none());
    match f.get("tags") {
        Some(Json::Array(v)) => {
            assert_eq!(v.len(), 2);
            assert!(matches!(&v[1], Json::Array(w) if matches!(&w[1], Json::Null)));
        }
        _ => panic!("the tags are an array"),
    }
    assert!(matches!(f.get("is_ai"), Some(Json::Null)));
    assert!(matches!(f.get("ai_type"), Some(Json::Null)));
    assert_eq!(d.image_id(), Some(String::from("https://www.pixiv.net/artworks/3")));
    assert_eq!(d.image_title(), Some(String::from("T")));
    d.ai_type = Some(AiType::Ai);
    d.description = Some(String::from("D"));
    let g = JSONDataFile::from_data(&d);
    assert!(matches!(g.get("is_ai"), Some(Json::Boolean(true))));
    assert!(matches!(g.get("ai_type"), Some(Json::Number(Some(2)))));
    assert!(matches!(g.get("description"), Some(Json::Str(t)) if t == "D"));
    d.ai_type = Some(AiType::NotAi);
    let h = JSONDataFile::from_data(&d);
    assert!(matches!(h.get("is_ai"), Some(Json::Boolean(false))));
    assert!(matches!(h.get("ai_type"), Some(Json::Number(Some(1)))));
}

#[test]
fn test_ai_type() {
    assert_eq!(AiType::Unknown.int_value(), 0);
    assert_eq!(AiType::NotAi.int_value(), 1);
    assert_eq!(AiType::Ai.int_value(), 2);
    assert!(AiType::Ai.is_ai());
    assert!(!AiType::Unknown.is_ai());
    assert!(!AiType::NotAi.is_ai());
}

#[test]
fn test_get_video_metas() {
    let mut d = PixivData::new(5).unwrap();
    assert!(get_video_metas(&d, None).is_empty());
    d.title = Some(String::from("T"));
    d.description = Some(String::from("<b>D</b>"));
    assert_eq!(
        get_video_metas(&d, None),
        vec![
            (String::from("title"), String::from("T")),
            (String::from("comment"), String::from("<b>D</b>"))
        ]
    );
    d.author = Some(String::from("A"));
    assert_eq!(
        get_video_metas(&d, Some("D")),
        vec![
            (String::from("title"), String::from("T")),
            (String::from("artist"), String::from("A")),
            (String::from("comment"), String::from("D"))
        ]
    );
}

#[test]
fn test_fanbox_data() {
    let d = FanboxData::new(12, obj(vec![("title", s("P"))])).unwrap();
    assert_eq!(d.id, 12);
    let f = JSONDataFile::from_fanbox_data(d);
    assert_eq!(f.id(), 12);
    assert!(matches!(f.get("raw"), Some(Json::Object(v)) if v.len() == 1));
    assert!(f.get("title").is_none());
}

#[test]
fn test_push_task_new() {
    let config = PushTaskConfig::Pixiv(PushTaskPixivConfig {
        act: PushTaskPixivAction::Bookmarks { restrict: PixivRestrictType::Private, uid: 7 },
        lang: None,
        use_web_description: Some(true),
        use_app_api: None,
        use_webpage: None,
    });
    let push = PushConfig::EveryPush(EveryPushConfig {
        push_server: String::from("https://push.example"),
        push_token: String::from("t"),
        typ: EveryPushTextType::Markdown,
        topic_id: None,
        author_locations: defualt_author_locations(),
        filter_author: default_true(),
        add_link: true,
        add_link_to_image: true,
        add_tags: true,
        add_ai_tag: true,
        add_translated_tag: true,
    });
    let t = PushTask::new(config, vec![push]);
    assert_eq!(t.id, 0);
    assert_eq!(t.last_updated, 0);
    assert_eq!(t.ttl, 0);
    assert_eq!(t.push_configs.len(), 1);
    assert!(matches!(
        t.config,
        PushTaskConfig::Pixiv(PushTaskPixivConfig {
            act: PushTaskPixivAction::Bookmarks { uid: 7, .. },
            ..
        })
    ));
}
