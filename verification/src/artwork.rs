use crate::data::data::{field_of, opt_str};
use crate::json_value::{json_field, json_members, json_str, Json};
use crate::text::{chars_of, decimal, decimal_string, push_decimal, str_eq};
use vstd::prelude::*;

verus! {

/// The object of an artwork in a response: the response itself for the
/// ajax API, else `illust.<id>` of the web page data.
pub open spec fn artwork_object_spec(re: Json, ajax_ver: bool, id: u64) -> Option<Json> {
    if ajax_ver {
        Some(re)
    } else {
        field_of(json_field(re, "illust"@), decimal(id as nat))
    }
}

/// The object of an artwork in a response.
pub fn artwork_object(re: &Json, ajax_ver: bool, id: u64) -> (r: Option<&Json>)
    ensures
        match r {
            Some(a) => artwork_object_spec(*re, ajax_ver, id) == Some(*a),
            None => artwork_object_spec(*re, ajax_ver, id) is None,
        },
{
    if ajax_ver {
        Some(re)
    } else {
        match re.field("illust") {
            Some(i) => i.field(decimal_string(id).as_str()),
            None => None,
        }
    }
}

/// A number that is a non-negative integer.
pub open spec fn json_u64(j: Option<Json>) -> Option<u64> {
    match j {
        Some(Json::Number(Some(n))) => if n >= 0 {
            Some(n as u64)
        } else {
            None
        },
        _ => None,
    }
}

/// The page count of an artwork.
pub fn page_count(artwork: &Json) -> (r: Option<u64>)
    ensures
        r == json_u64(json_field(*artwork, "pageCount"@)),
{
    match artwork.field("pageCount") {
        Some(Json::Number(Some(n))) => if *n >= 0 {
            Some(*n as u64)
        } else {
            None
        },
        _ => None,
    }
}

/// The kind of an artwork, by its `illustType`.
#[derive(Clone, Copy, Debug, PartialEq, Eq, Structural)]
pub enum IllustKind {
    /// 0
    Illust,
    /// 1
    Manga,
    /// 2: an animation, downloaded as a video.
    Ugoira,
    /// Any other number.
    Unknown(i64),
    /// No number.
    Missing,
}

pub open spec fn illust_kind_spec(artwork: Json) -> IllustKind {
    match json_field(artwork, "illustType"@) {
        Some(Json::Number(Some(t))) => if t == 0 {
            IllustKind::Illust
        } else if t == 1 {
            IllustKind::Manga
        } else if t == 2 {
            IllustKind::Ugoira
        } else {
            IllustKind::Unknown(t)
        },
        _ => IllustKind::Missing,
    }
}

/// The kind of an artwork.
pub fn illust_kind(artwork: &Json) -> (r: IllustKind)
    ensures
        r == illust_kind_spec(*artwork),
{
    match artwork.field("illustType") {
        Some(Json::Number(Some(t))) => {
            let t = *t;
            if t == 0 {
                IllustKind::Illust
            } else if t == 1 {
                IllustKind::Manga
            } else if t == 2 {
                IllustKind::Ugoira
            } else {
                IllustKind::Unknown(t)
            }
        },
        _ => IllustKind::Missing,
    }
}

/// The link of the original picture of a page: `urls.original`.
pub open spec fn original_link_spec(v: Json) -> Option<Seq<char>> {
    json_str(field_of(json_field(v, "urls"@), "original"@))
}

/// The link of the original picture of a page or of an artwork.
pub fn original_link(v: &Json) -> (r: Option<&String>)
    ensures
        match r {
            Some(s) => original_link_spec(*v) == Some(s@),
            None => original_link_spec(*v) is None,
        },
{
    match v.field("urls") {
        Some(u) => u.field_str("original"),
        None => None,
    }
}

/// The links of the original pictures of the pages, in order; `None` for a
/// page without one.
pub fn page_links(pages: &Json) -> (r: Vec<Option<String>>)
    ensures
        r@.len() == json_members(*pages).len(),
        forall|i: int|
            0 <= i < r@.len() ==> match #[trigger] r@[i] {
                Some(s) => original_link_spec(json_members(*pages)[i]) == Some(s@),
                None => original_link_spec(json_members(*pages)[i]) is None,
            },
{
    let ms = pages.members();
    let mut out: Vec<Option<String>> = Vec::new();
    let mut i: usize = 0;
    while i < ms.len()
        invariant
            i <= ms@.len(),
            ms@ == json_members(*pages),
            out@.len() == i,
            forall|k: int|
                0 <= k < i ==> match #[trigger] out@[k] {
                    Some(s) => original_link_spec(ms@[k]) == Some(s@),
                    None => original_link_spec(ms@[k]) is None,
                },
        decreases ms@.len() - i,
    {
        let l = match original_link(&ms[i]) {
            Some(s) => Some(s.clone()),
            None => None,
        };
        out.push(l);
        i = i + 1;
    }
    out
}

/// The source of an animation's frames: `originalSrc`.
pub fn ugoira_source(data: &Json) -> (r: Option<&String>)
    ensures
        match r {
            Some(s) => json_str(json_field(*data, "originalSrc"@)) == Some(s@),
            None => json_str(json_field(*data, "originalSrc"@)) is None,
        },
{
    data.field_str("originalSrc")
}

/// The frames of an animation: `frames`, saved as they are next to the
/// video (null when there are none).
pub fn ugoira_frames(data: &Json) -> (r: Option<&Json>)
    ensures
        match r {
            Some(v) => json_field(*data, "frames"@) == Some(*v),
            None => json_field(*data, "frames"@) is None,
        },
{
    data.field("frames")
}

/// The description an artwork has on the web API, when its app data has
/// none: `description`, else `illustComment`.
pub fn web_description(data: &Json) -> (r: Option<&String>)
    ensures
        match r {
            Some(s) => json_str(json_field(*data, "description"@)) == Some(s@) || (json_str(
                json_field(*data, "description"@),
            ) is None && json_str(json_field(*data, "illustComment"@)) == Some(s@)),
            None => json_str(json_field(*data, "description"@)) is None && json_str(
                json_field(*data, "illustComment"@),
            ) is None,
        },
{
    match data.field_str("description") {
        Some(d) => Some(d),
        None => data.field_str("illustComment"),
    }
}

/// Whether an artwork downloaded with the app API is added to the browsing
/// history: when that is asked for and the web API was not used for its
/// description.
pub fn add_history_wanted(add_history: bool, web_description_used: bool) -> (r: bool)
    ensures
        r == (add_history && !web_description_used),
{
    add_history && !web_description_used
}

/// Whether the information of a fanbox creator is fetched: unless the data
/// at hand (`cached_id`: the id of the creator it is about) is for this
/// creator.
pub fn creator_fetch_needed(cached_id: Option<&str>, id: &str) -> (r: bool)
    ensures
        r == !(cached_id matches Some(c) && c@ == id@),
{
    match cached_id {
        Some(c) => !str_eq(c, id),
        None => true,
    }
}

/// Which API an artwork is downloaded with.
#[derive(Clone, Copy, Debug, PartialEq, Eq, Structural)]
pub enum ApiOrder {
    /// The app API, then the web API when that fails for another reason
    /// than a missing artwork.
    AppThenWeb,
    /// The web API, then the app API when that fails.
    WebThenApp,
    /// The web API alone.
    WebOnly,
}

/// Which API an artwork is downloaded with: the app API needs a refresh
/// token, and comes first when it is preferred.
pub fn api_order(has_refresh_token: bool, use_app_api: bool) -> (r: ApiOrder)
    ensures
        r == (if has_refresh_token && use_app_api {
            ApiOrder::AppThenWeb
        } else if has_refresh_token {
            ApiOrder::WebThenApp
        } else {
            ApiOrder::WebOnly
        }),
{
    if has_refresh_token && use_app_api {
        ApiOrder::AppThenWeb
    } else if has_refresh_token {
        ApiOrder::WebThenApp
    } else {
        ApiOrder::WebOnly
    }
}

/// `<id>` followed by a suffix.
fn id_with_suffix(id: u64, suffix: &str) -> (r: String)
    ensures
        r@ == decimal(id as nat) + suffix@,
{
    let mut s = String::new();
    push_decimal(&mut s, id);
    s.append(suffix);
    s
}

/// The file the metadata of an artwork is saved to: `<id>.json`.
pub fn metadata_file_name(id: u64) -> (r: String)
    ensures
        r@ == decimal(id as nat) + ".json"@,
{
    id_with_suffix(id, ".json")
}

/// The file the frames of an animation are saved to: `<id>_frames.json`.
pub fn ugoira_frames_file_name(id: u64) -> (r: String)
    ensures
        r@ == decimal(id as nat) + "_frames.json"@,
{
    id_with_suffix(id, "_frames.json")
}

/// The video an animation is converted to: `<id>.mp4`.
pub fn ugoira_output_file_name(id: u64) -> (r: String)
    ensures
        r@ == decimal(id as nat) + ".mp4"@,
{
    id_with_suffix(id, ".mp4")
}

/// `s` with `0`s in front, up to `width` characters.
pub open spec fn zero_padded(s: Seq<char>, width: nat) -> Seq<char> {
    if s.len() < width {
        Seq::new((width - s.len()) as nat, |i: int| '0') + s
    } else {
        s
    }
}

/// The file name of the page `np` (counted from 0) of a post of
/// `total_page` pages, when pages are numbered: `<base>_<n>.<ext>` with the
/// page number counted from 1 and padded with `0`s to the width of the page
/// count.
pub fn page_file_name(base: &str, np: u16, total_page: u16, ext: &str) -> (r: String)
    requires
        np < u16::MAX,
    ensures
        r@ == base@ + "_"@ + zero_padded(decimal((np + 1) as nat), decimal(total_page as nat).len())
            + "."@ + ext@,
{
    let width = chars_of(decimal_string(total_page as u64).as_str()).len();
    let digits = decimal_string((np + 1) as u64);
    let mut s = String::from_str(base);
    s.append("_");
    let ghost start = s@;
    let n = chars_of(digits.as_str()).len();
    let mut k: usize = n;
    while k < width
        invariant
            n == digits@.len(),
            n <= k <= width || width < n,
            k >= n,
            width <= n ==> k == n,
            s@ == start + Seq::new((k - n) as nat, |i: int| '0'),
        decreases width - k,
    {
        s.append("0");
        proof {
            reveal_strlit("0");
        }
        assert(Seq::new((k + 1 - n) as nat, |i: int| '0') =~= Seq::new((k - n) as nat, |i: int| '0')
            + seq!['0']);
        k = k + 1;
    }
    s.append(digits.as_str());
    s.append(".");
    s.append(ext);
    proof {
        if n < width {
            assert(k == width);
        } else {
            assert(Seq::new((k - n) as nat, |i: int| '0') =~= Seq::<char>::empty());
        }
        assert(s@ =~= base@ + "_"@ + zero_padded(digits@, width as nat) + "."@ + ext@);
    }
    s
}

/// Why an artwork cannot be downloaded.
#[derive(Clone, Copy, Debug, PartialEq, Eq, Structural)]
pub enum PlanError {
    /// "Failed to get page count."
    NoPageCount,
    /// "Failed to get pages' data."
    NoPagesData,
    /// "Failed to get original picture's link."
    NoLink,
}

impl PlanError {
    /// The message of the error.
    pub fn message(&self) -> (r: &'static str)
        ensures
            r@ == match *self {
                PlanError::NoPageCount => "Failed to get page count."@,
                PlanError::NoPagesData => "Failed to get pages' data."@,
                PlanError::NoLink => "Failed to get original picture's link."@,
            },
    {
        match self {
            PlanError::NoPageCount => "Failed to get page count.",
            PlanError::NoPagesData => "Failed to get pages' data.",
            PlanError::NoLink => "Failed to get original picture's link.",
        }
    }
}

/// What downloading an artwork comes to.
pub enum DownloadPlan {
    /// An animation: download its frames and convert them.
    Ugoira,
    /// Several pages: the link of each page's original picture, in order of
    /// the page numbers from 0; `None` for a page without one (an error of
    /// that page).
    Pages(Vec<Option<String>>),
    /// One page: the link of its original picture.
    Single(String),
}

/// What a plan holds.
pub enum DownloadPlanView {
    Ugoira,
    Pages(Seq<Option<Seq<char>>>),
    Single(Seq<char>),
}

pub open spec fn plan_view(p: DownloadPlan) -> DownloadPlanView {
    match p {
        DownloadPlan::Ugoira => DownloadPlanView::Ugoira,
        DownloadPlan::Pages(v) => DownloadPlanView::Pages(
            v@.map_values(|l: Option<String>| opt_str(l)),
        ),
        DownloadPlan::Single(l) => DownloadPlanView::Single(l@),
    }
}

pub open spec fn plan_result_view(r: Result<DownloadPlan, PlanError>) -> Result<DownloadPlanView, PlanError> {
    match r {
        Ok(p) => Ok(plan_view(p)),
        Err(e) => Err(e),
    }
}

/// The links of the pages of a list, as `page_links` reads them.
pub open spec fn page_links_spec(pages: Json, path: spec_fn(Json) -> Option<Seq<char>>) -> Seq<
    Option<Seq<char>>,
> {
    json_members(pages).map_values(path)
}

/// What downloading an artwork with the web API comes to, given the
/// response `re` (the artwork itself for the ajax API, else the web page
/// data) and the pages' data, fetched when there are several pages: the page
/// count must be there; several pages need their data; an animation (type
/// 2) is converted; several pages are downloaded by their links, one page by
/// the artwork's link.
pub open spec fn web_plan_spec(re: Json, ajax_ver: bool, id: u64, pages: Option<Json>) -> Result<
    DownloadPlanView,
    PlanError,
> {
    let a = match artwork_object_spec(re, ajax_ver, id) {
        Some(x) => x,
        None => Json::Null,
    };
    match json_u64(json_field(a, "pageCount"@)) {
        None => Err(PlanError::NoPageCount),
        Some(n) => if n > 1 && pages is None {
            Err(PlanError::NoPagesData)
        } else if illust_kind_spec(a) == IllustKind::Ugoira {
            Ok(DownloadPlanView::Ugoira)
        } else if n > 1 {
            Ok(
                DownloadPlanView::Pages(
                    page_links_spec(pages.unwrap(), |m: Json| original_link_spec(m)),
                ),
            )
        } else {
            match original_link_spec(a) {
                Some(l) => Ok(DownloadPlanView::Single(l)),
                None => Err(PlanError::NoLink),
            }
        },
    }
}

/// What downloading an artwork with the web API comes to (see
/// `web_plan_spec`). `pages` is only read when there are several pages.
pub fn web_download_plan(re: &Json, ajax_ver: bool, id: u64, pages: Option<&Json>) -> (r: Result<
    DownloadPlan,
    PlanError,
>)
    ensures
        plan_result_view(r) == web_plan_spec(
            *re,
            ajax_ver,
            id,
            match pages {
                Some(p) => Some(*p),
                None => None,
            },
        ),
{
    let null = Json::Null;
    let a = match artwork_object(re, ajax_ver, id) {
        Some(x) => x,
        None => &null,
    };
    let n = match page_count(a) {
        Some(n) => n,
        None => {
            return Err(PlanError::NoPageCount);
        },
    };
    if n > 1 && pages.is_none() {
        return Err(PlanError::NoPagesData);
    }
    if illust_kind(a) == IllustKind::Ugoira {
        return Ok(DownloadPlan::Ugoira);
    }
    if n > 1 {
        let p = pages.unwrap();
        let links = page_links(p);
        proof {
            let v = links@.map_values(|l: Option<String>| opt_str(l));
            assert(v =~= page_links_spec(*p, |m: Json| original_link_spec(m)));
        }
        return Ok(DownloadPlan::Pages(links));
    }
    match original_link(a) {
        Some(l) => Ok(DownloadPlan::Single(l.clone())),
        None => Err(PlanError::NoLink),
    }
}

/// The link of the original picture of a page of an App API artwork:
/// `image_urls.original`.
pub open spec fn app_page_link_spec(v: Json) -> Option<Seq<char>> {
    json_str(field_of(json_field(v, "image_urls"@), "original"@))
}

/// What downloading an artwork with the App API comes to, given its
/// details (`type`, `page_count`, `meta_pages`, `meta_single_page` as the
/// App API names them): an animation (`type` "ugoira") is converted first of
/// all; then the page count must be there; several pages are downloaded by
/// the links of `meta_pages`, one page by `meta_single_page`'s
/// `original_image_url`.
pub open spec fn app_plan_spec(d: Json) -> Result<DownloadPlanView, PlanError> {
    if json_str(json_field(d, "type"@)) == Some("ugoira"@) {
        Ok(DownloadPlanView::Ugoira)
    } else {
        match json_u64(json_field(d, "page_count"@)) {
            None => Err(PlanError::NoPageCount),
            Some(n) => if n > 1 {
                Ok(
                    DownloadPlanView::Pages(
                        page_links_spec(
                            match json_field(d, "meta_pages"@) {
                                Some(m) => m,
                                None => Json::Null,
                            },
                            |m: Json| app_page_link_spec(m),
                        ),
                    ),
                )
            } else {
                match json_str(field_of(json_field(d, "meta_single_page"@), "original_image_url"@)) {
                    Some(l) => Ok(DownloadPlanView::Single(l)),
                    None => Err(PlanError::NoLink),
                }
            },
        }
    }
}

/// What downloading an artwork with the App API comes to (see
/// `app_plan_spec`).
pub fn app_download_plan(d: &Json) -> (r: Result<DownloadPlan, PlanError>)
    ensures
        plan_result_view(r) == app_plan_spec(*d),
{
    match d.field_str("type") {
        Some(t) => {
            if str_eq(t.as_str(), "ugoira") {
                return Ok(DownloadPlan::Ugoira);
            }
        },
        None => {},
    }
    let n = match page_count_field(d, "page_count") {
        Some(n) => n,
        None => {
            return Err(PlanError::NoPageCount);
        },
    };
    if n > 1 {
        let null = Json::Null;
        let mp = match d.field("meta_pages") {
            Some(m) => m,
            None => &null,
        };
        let ms = mp.members();
        let mut out: Vec<Option<String>> = Vec::new();
        let mut i: usize = 0;
        while i < ms.len()
            invariant
                i <= ms@.len(),
                ms@ == json_members(*mp),
                out@.len() == i,
                forall|k: int|
                    0 <= k < i ==> opt_str(#[trigger] out@[k]) == app_page_link_spec(ms@[k]),
            decreases ms@.len() - i,
        {
            let l = match ms[i].field("image_urls") {
                Some(u) => match u.field_str("original") {
                    Some(s) => Some(s.clone()),
                    None => None,
                },
                None => None,
            };
            out.push(l);
            i = i + 1;
        }
        proof {
            let v = out@.map_values(|l: Option<String>| opt_str(l));
            assert(v =~= page_links_spec(*mp, |m: Json| app_page_link_spec(m)));
        }
        return Ok(DownloadPlan::Pages(out));
    }
    let single = match d.field("meta_single_page") {
        Some(m) => m.field_str("original_image_url"),
        None => None,
    };
    match single {
        Some(l) => Ok(DownloadPlan::Single(l.clone())),
        None => Err(PlanError::NoLink),
    }
}

/// A field that is a non-negative integer.
fn page_count_field(v: &Json, key: &str) -> (r: Option<u64>)
    ensures
        r == json_u64(json_field(*v, key@)),
{
    match v.field(key) {
        Some(Json::Number(Some(n))) => if *n >= 0 {
            Some(*n as u64)
        } else {
            None
        },
        _ => None,
    }
}

} // verus!
