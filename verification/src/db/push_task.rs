use vstd::prelude::*;

verus! {

#[derive(Debug, Eq, PartialEq, Structural, Clone, Copy)]
/// Author location
pub enum AuthorLocation {
    /// add author name to title
    Title,
    /// add author name to the top of description
    Top,
    /// add author name to the bottom of description
    Bottom,
}

/// The author locations of a push configuration that sets none: the top of
/// the description.
pub fn defualt_author_locations() -> (r: Vec<AuthorLocation>)
    ensures
        r@ == seq![AuthorLocation::Top],
{
    let r = vec![AuthorLocation::Top];
    assert(r@ =~= seq![AuthorLocation::Top]);
    r
}

/// The value of a flag of a push configuration that sets none.
pub fn default_true() -> (r: bool)
    ensures
        r,
{
    true
}

/// Which works of the pixiv app API are listed: the public or the private
/// ones.
#[derive(Debug, Eq, PartialEq, Structural, Clone, Copy)]
pub enum PixivRestrictType {
    Public,
    Private,
}

/// How an EveryPush message is written.
#[derive(Debug, Eq, PartialEq, Structural, Clone, Copy)]
pub enum EveryPushTextType {
    Text,
    Image,
    Markdown,
}

/// What a pixiv push task follows.
#[derive(Debug)]
pub enum PushTaskPixivAction {
    /// The new works of the followed users.
    Follow { restrict: PixivRestrictType },
    /// The bookmarks of a user.
    Bookmarks { restrict: PixivRestrictType, uid: u64 },
    /// The works of a user.
    Illusts { uid: u64 },
}

#[derive(Debug)]
pub struct PushTaskPixivConfig {
    pub act: PushTaskPixivAction,
    /// Tag translation language
    pub lang: Option<String>,
    /// Whether to use description from Web API when description from APP API is empty.
    pub use_web_description: Option<bool>,
    /// Whether to use Pixiv APP API first.
    pub use_app_api: Option<bool>,
    /// Use data from webpage first.
    pub use_webpage: Option<bool>,
}

#[derive(Debug)]
pub enum PushTaskConfig {
    Pixiv(PushTaskPixivConfig),
}

#[derive(Debug)]
pub struct EveryPushConfig {
    /// Push server
    pub push_server: String,
    /// Push token
    pub push_token: String,
    /// Push type
    pub typ: EveryPushTextType,
    /// Push topic ID
    pub topic_id: Option<String>,
    /// Author locations
    /// If type is `Image`, this field only support [AuthorLocation::Title].
    pub author_locations: Vec<AuthorLocation>,
    /// Whether to filter author name
    pub filter_author: bool,
    /// Whether to add artwork link
    pub add_link: bool,
    /// Whether to add image link to image
    pub add_link_to_image: bool,
    /// Whether to add tags
    pub add_tags: bool,
    /// Whether to add AI tag
    pub add_ai_tag: bool,
    /// Whether to add translated tag
    pub add_translated_tag: bool,
}

#[derive(Debug)]
pub enum PushConfig {
    EveryPush(EveryPushConfig),
}

#[derive(Debug)]
pub struct PushTask {
    /// The task ID
    pub id: u64,
    /// Configurations of the task
    pub config: PushTaskConfig,
    /// Push configurations
    pub push_configs: Vec<PushConfig>,
    /// Last updated time, in seconds since the Unix epoch
    pub last_updated: i64,
    /// Update interval
    pub ttl: u64,
}

impl PushTask {
    /// A task not stored yet: id 0, never updated (the Unix epoch), no
    /// update interval.
    pub fn new(config: PushTaskConfig, push_configs: Vec<PushConfig>) -> (r: Self)
        ensures
            r.id == 0,
            r.config == config,
            r.push_configs == push_configs,
            r.last_updated == 0,
            r.ttl == 0,
    {
        PushTask { id: 0, config, push_configs, last_updated: 0, ttl: 0 }
    }
}

} // verus!
