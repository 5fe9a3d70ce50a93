use crate::author_name_filter::{apply_filters, filters_view, AuthorFiler, AuthorNameFilter, FilterView};
use crate::json_value::{json_field, json_members, json_str, Json};
use crate::text::{decimal, decimal_string};
use vstd::prelude::*;

verus! {

/// What `xml::unescape` (RustyXML) gives for a text: the text with its XML
/// entities replaced, or the first entity it cannot read.
pub uninterp spec fn xml_unescaped(s: Seq<char>) -> Result<Seq<char>, Seq<char>>;

/// A text without `&`, with which every XML entity starts, is kept as it is.
pub open spec fn plain_text_kept(s: Seq<char>, r: Result<Seq<char>, Seq<char>>) -> bool {
    !s.contains('&') ==> r == Ok::<Seq<char>, Seq<char>>(s)
}

/// The texts a result holds.
pub open spec fn text_result(r: Result<String, String>) -> Result<Seq<char>, Seq<char>> {
    match r {
        Ok(t) => Ok(t@),
        Err(e) => Err(e@),
    }
}

/// `xml::unescape` (RustyXML). A text without `&` holds no entity and comes
/// back as it is.
#[verifier::external_body]
fn unescape(s: &str) -> (r: Result<String, String>)
    ensures
        text_result(r) == xml_unescaped(s@),
        plain_text_kept(s@, text_result(r)),
{
    xml::unescape(s)
}

/// Whether pixiv marks an artwork as made by AI (its `aiType` number).
#[derive(Clone, Copy, Debug, PartialEq, Eq, Structural)]
pub enum AiType {
    /// `0`: not said.
    Unknown,
    /// `1`: not made by AI.
    NotAi,
    /// `2`: made by AI.
    Ai,
}

/// The number pixiv gives a kind.
pub open spec fn ai_type_number(t: AiType) -> u8 {
    match t {
        AiType::Unknown => 0,
        AiType::NotAi => 1,
        AiType::Ai => 2,
    }
}

impl AiType {
    /// The number pixiv gives this kind.
    pub fn int_value(&self) -> (r: u8)
        ensures
            r == ai_type_number(*self),
    {
        match self {
            AiType::Unknown => 0,
            AiType::NotAi => 1,
            AiType::Ai => 2,
        }
    }

    /// Whether the artwork is made by AI.
    pub fn is_ai(&self) -> (r: bool)
        ensures
            r == (*self == AiType::Ai),
    {
        match self {
            AiType::Ai => true,
            _ => false,
        }
    }
}

/// What the basic data of an artwork holds.
pub struct PixivDataView {
    pub id: u64,
    pub title: Option<Seq<char>>,
    pub author: Option<Seq<char>>,
    pub description: Option<Seq<char>>,
    pub tags: Option<Seq<(Seq<char>, Option<Seq<char>>)>>,
    pub ai_type: Option<AiType>,
}

/// Pixiv's basic data
pub struct PixivData {
    /// ID
    pub id: u64,
    /// The title
    pub title: Option<String>,
    /// The author
    pub author: Option<String>,
    pub description: Option<String>,
    /// Tags (Original, translated)
    pub tags: Option<Vec<(String, Option<String>)>>,
    /// Whether it is made by AI, when known.
    pub ai_type: Option<AiType>,
}

/// The view of an optional string.
pub open spec fn opt_str(s: Option<String>) -> Option<Seq<char>> {
    match s {
        Some(x) => Some(x@),
        None => None,
    }
}

/// The view of a tag.
pub open spec fn tag_view(t: (String, Option<String>)) -> (Seq<char>, Option<Seq<char>>) {
    (t.0@, opt_str(t.1))
}

impl View for PixivData {
    type V = PixivDataView;

    open spec fn view(&self) -> PixivDataView {
        PixivDataView {
            id: self.id,
            title: opt_str(self.title),
            author: opt_str(self.author),
            description: opt_str(self.description),
            tags: match self.tags {
                Some(v) => Some(v@.map_values(|t: (String, Option<String>)| tag_view(t))),
                None => None,
            },
            ai_type: self.ai_type,
        }
    }
}

/// The field of an optional value.
pub open spec fn field_of(j: Option<Json>, key: Seq<char>) -> Option<Json> {
    match j {
        Some(x) => json_field(x, key),
        None => None,
    }
}

/// The elements of an optional value that is an array.
pub open spec fn members_of(j: Option<Json>) -> Seq<Json> {
    match j {
        Some(x) => json_members(x),
        None => seq![],
    }
}

/// The tags of a list of tag objects: each that has a `tag` text, with its
/// English translation if it has one.
pub open spec fn tags_of(ms: Seq<Json>) -> Seq<(Seq<char>, Option<Seq<char>>)>
    decreases ms.len(),
{
    if ms.len() == 0 {
        seq![]
    } else {
        let rest = tags_of(ms.drop_last());
        let t = ms.last();
        match json_str(json_field(t, "tag"@)) {
            Some(o) => rest.push(
                (o, json_str(field_of(json_field(t, "translation"@), "en"@))),
            ),
            None => rest,
        }
    }
}

/// The data after reading the JSON object of an artwork: each of the title,
/// the author (as the filters leave it) and the description (with its XML
/// entities replaced) is read when it is missing or may be overwritten and
/// the object has it; the tags are always replaced.
pub open spec fn ajax_update(
    d: PixivDataView,
    value: Json,
    allow_overwrite: bool,
    filters: Option<Seq<FilterView>>,
) -> PixivDataView {
    let title = json_str(json_field(value, "illustTitle"@));
    let author = json_str(json_field(value, "userName"@));
    let desc = match json_str(json_field(value, "description"@)) {
        Some(x) => Some(x),
        None => json_str(json_field(value, "illustComment"@)),
    };
    PixivDataView {
        id: d.id,
        title: if (d.title is None || allow_overwrite) && title is Some {
            title
        } else {
            d.title
        },
        author: if (d.author is None || allow_overwrite) && author is Some {
            match filters {
                Some(fs) => Some(apply_filters(fs, author.unwrap())),
                None => author,
            }
        } else {
            d.author
        },
        description: if (d.description is None || allow_overwrite) && desc is Some {
            match xml_unescaped(desc.unwrap()) {
                Ok(s) => Some(s),
                Err(_) => d.description,
            }
        } else {
            d.description
        },
        tags: Some(tags_of(members_of(field_of(json_field(value, "tags"@), "tags"@)))),
        ai_type: d.ai_type,
    }
}

/// How a field is read: when there was none, or it may be overwritten, it
/// is what the object gives if the object gives something; otherwise it
/// keeps what it was.
pub open spec fn read_or_kept(
    before: Option<Seq<char>>,
    after: Option<Seq<char>>,
    given: Option<Seq<char>>,
    allow_overwrite: bool,
) -> bool {
    &&& (before is None || allow_overwrite) && given is Some ==> after == given
    &&& !((before is None || allow_overwrite) && given is Some) ==> after == before
}

/// Reading the object of an artwork reads the title, and the author (as
/// the filters leave it), when there was none or they may be overwritten
/// and the object has one; otherwise it keeps them. The id never changes.
pub proof fn lemma_ajax_update_reads(
    d: PixivDataView,
    value: Json,
    allow_overwrite: bool,
    filters: Option<Seq<FilterView>>,
)
    ensures
        ajax_update(d, value, allow_overwrite, filters).id == d.id,
        read_or_kept(
            d.title,
            ajax_update(d, value, allow_overwrite, filters).title,
            json_str(json_field(value, "illustTitle"@)),
            allow_overwrite,
        ),
        read_or_kept(
            d.author,
            ajax_update(d, value, allow_overwrite, filters).author,
            match json_str(json_field(value, "userName"@)) {
                Some(u) => Some(
                    match filters {
                        Some(fs) => apply_filters(fs, u),
                        None => u,
                    },
                ),
                None => None,
            },
            allow_overwrite,
        ),
{
}

impl PixivData {
    /// The data of an artwork, with nothing read yet.
    pub fn new(id: u64) -> (r: Option<Self>)
        ensures
            r matches Some(d) && d@ == (PixivDataView {
                id,
                title: None,
                author: None,
                description: None,
                tags: None,
                ai_type: None,
            }),
    {
        Some(PixivData { id, title: None, author: None, description: None, tags: None, ai_type: None })
    }

    /// Read data from JSON object.
    /// The object is from `https://www.pixiv.net/artworks/<id>`: the
    /// artwork's object is `illust.<id>`.
    /// * `value` - The JSON object
    /// * `allow_overwrite` - Allow overwrite the data existing.
    /// * `filters` - The filters of author names, if any.
    pub fn from_web_page_data(
        &mut self,
        value: &Json,
        allow_overwrite: bool,
        filters: Option<&Vec<AuthorNameFilter>>,
    )
        ensures
            final(self)@ == ajax_update(
                old(self)@,
                match field_of(json_field(*value, "illust"@), decimal(old(self)@.id as nat)) {
                    Some(v) => v,
                    None => Json::Null,
                },
                allow_overwrite,
                match filters {
                    Some(fs) => Some(filters_view(fs@)),
                    None => None,
                },
            ),
    {
        let ids = decimal_string(self.id);
        let inner = match value.field("illust") {
            Some(i) => i.field(ids.as_str()),
            None => None,
        };
        match inner {
            Some(v) => self.from_web_page_ajax_data(v, allow_overwrite, filters),
            None => self.from_web_page_ajax_data(&Json::Null, allow_overwrite, filters),
        }
    }

    /// Read data from JSON object.
    /// The object is from `https://www.pixiv.net/illust/ajax/<id>`
    /// * `value` - The JSON object
    /// * `allow_overwrite` - Allow overwrite the data existing.
    /// * `filters` - The filters of author names, if any.
    pub fn from_web_page_ajax_data(
        &mut self,
        value: &Json,
        allow_overwrite: bool,
        filters: Option<&Vec<AuthorNameFilter>>,
    )
        ensures
            final(self)@ == ajax_update(
                old(self)@,
                *value,
                allow_overwrite,
                match filters {
                    Some(fs) => Some(filters_view(fs@)),
                    None => None,
                },
            ),
            read_or_kept(
                old(self)@.title,
                final(self)@.title,
                json_str(json_field(*value, "illustTitle"@)),
                allow_overwrite,
            ),
            read_or_kept(
                old(self)@.author,
                final(self)@.author,
                match json_str(json_field(*value, "userName"@)) {
                    Some(u) => Some(
                        match filters {
                            Some(fs) => apply_filters(filters_view(fs@), u),
                            None => u,
                        },
                    ),
                    None => None,
                },
                allow_overwrite,
            ),
    {
        if self.title.is_none() || allow_overwrite {
            match value.field_str("illustTitle") {
                Some(t) => {
                    self.title = Some(t.clone());
                },
                None => {},
            }
        }
        if self.author.is_none() || allow_overwrite {
            match value.field_str("userName") {
                Some(au) => {
                    match filters {
                        Some(l) => {
                            self.author = Some(l.filter(au.as_str()));
                        },
                        None => {
                            self.author = Some(au.clone());
                        },
                    }
                },
                None => {},
            }
        }
        if self.description.is_none() || allow_overwrite {
            let description = match value.field_str("description") {
                Some(d) => Some(d),
                None => value.field_str("illustComment"),
            };
            match description {
                Some(d) => {
                    match unescape(d.as_str()) {
                        Ok(s) => {
                            self.description = Some(s);
                        },
                        Err(_) => {},
                    }
                },
                None => {},
            }
        }
        let ghost ms = members_of(field_of(json_field(*value, "tags"@), "tags"@));
        let list: &[Json] = match value.field("tags") {
            Some(t) => match t.field("tags") {
                Some(tt) => tt.members(),
                None => &[],
            },
            None => &[],
        };
        assert(list@ =~= ms);
        let mut tags: Vec<(String, Option<String>)> = Vec::new();
        let mut i: usize = 0;
        while i < list.len()
            invariant
                i <= list@.len(),
                list@ == ms,
                tags@.map_values(|t: (String, Option<String>)| tag_view(t)) == tags_of(
                    ms.take(i as int),
                ),
            decreases list@.len() - i,
        {
            let tag = &list[i];
            proof {
                assert(ms.take(i + 1).drop_last() =~= ms.take(i as int));
                assert(ms.take(i + 1).last() == *tag);
            }
            match tag.field_str("tag") {
                Some(ori) => {
                    let en = match tag.field("translation") {
                        Some(tr) => match tr.field_str("en") {
                            Some(s) => Some(s.clone()),
                            None => None,
                        },
                        None => None,
                    };
                    let ghost before = tags@;
                    tags.push((ori.clone(), en));
                    assert(tags@.map_values(|t: (String, Option<String>)| tag_view(t)) =~= before.map_values(
                        |t: (String, Option<String>)| tag_view(t),
                    ).push(tag_view(tags@.last())));
                },
                None => {},
            }
            i = i + 1;
        }
        assert(ms.take(list@.len() as int) =~= ms);
        self.tags = Some(tags);
    }
}

} // verus!
