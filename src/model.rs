//! The records that flow between the site, the workers and the directory.

use vstd::prelude::*;

verus! {

/// Seconds since the Unix epoch, in UTC.
pub type Timestamp = i64;

/// The three kinds of gallery; `Mini` is recognised but never crawled.
#[derive(Debug, PartialEq, Eq, Structural, Clone, Copy)]
pub enum GalleryKind {
    Major,
    Minor,
    Mini,
}

pub open spec fn gallery_kind_name(k: GalleryKind) -> Seq<char> {
    match k {
        GalleryKind::Major => "major"@,
        GalleryKind::Minor => "minor"@,
        GalleryKind::Mini => "mini"@,
    }
}

/// The kind whose name is `s`, if any.
pub open spec fn gallery_kind_of_name(s: Seq<char>) -> Option<GalleryKind> {
    if s == "major"@ {
        Some(GalleryKind::Major)
    } else if s == "minor"@ {
        Some(GalleryKind::Minor)
    } else if s == "mini"@ {
        Some(GalleryKind::Mini)
    } else {
        None
    }
}

impl GalleryKind {
    /// The lower-case name of the kind.
    pub fn name(&self) -> (r: &'static str)
        ensures
            r@ == gallery_kind_name(*self),
    {
        match self {
            GalleryKind::Major => "major",
            GalleryKind::Minor => "minor",
            GalleryKind::Mini => "mini",
        }
    }

    /// The kind named `s` (`major`, `minor` or `mini`); `None` for any other text.
    pub fn from_name(s: &str) -> (r: Option<GalleryKind>)
        ensures
            r == gallery_kind_of_name(s@),
    {
        if crate::text::str_eq(s, "major") {
            Some(GalleryKind::Major)
        } else if crate::text::str_eq(s, "minor") {
            Some(GalleryKind::Minor)
        } else if crate::text::str_eq(s, "mini") {
            Some(GalleryKind::Mini)
        } else {
            None
        }
    }

    /// The kind a gallery has when nothing else is known: `Major`.
    pub fn default_kind() -> (r: GalleryKind)
        ensures
            r == GalleryKind::Major,
    {
        GalleryKind::Major
    }
}

/// What a listed post carries besides text.
#[derive(Debug, PartialEq, Eq, Structural, Clone, Copy)]
pub enum DocumentKind {
    Text,
    Picture,
    Video,
}

pub open spec fn document_kind_name(k: DocumentKind) -> Seq<char> {
    match k {
        DocumentKind::Text => "text"@,
        DocumentKind::Picture => "picture"@,
        DocumentKind::Video => "video"@,
    }
}

/// The kind of a post from its icons: a video icon wins over a picture icon.
pub open spec fn document_kind_from_icons(has_video: bool, has_picture: bool) -> DocumentKind {
    if has_video {
        DocumentKind::Video
    } else if has_picture {
        DocumentKind::Picture
    } else {
        DocumentKind::Text
    }
}

impl DocumentKind {
    /// The lower-case name of the kind.
    pub fn name(&self) -> (r: &'static str)
        ensures
            r@ == document_kind_name(*self),
    {
        match self {
            DocumentKind::Text => "text",
            DocumentKind::Picture => "picture",
            DocumentKind::Video => "video",
        }
    }

    /// The kind of a post whose row shows the given icons.
    pub fn from_icons(has_video: bool, has_picture: bool) -> (r: DocumentKind)
        ensures
            r == document_kind_from_icons(has_video, has_picture),
    {
        if has_video {
            DocumentKind::Video
        } else if has_picture {
            DocumentKind::Picture
        } else {
            DocumentKind::Text
        }
    }
}

/// How an author is identified: a registered id, an IP prefix, or neither.
#[derive(Debug, PartialEq, Eq, Structural, Clone, Copy)]
pub enum UserKind {
    Static,
    Dynamic,
    Unknown,
}

pub open spec fn user_kind_name(k: UserKind) -> Seq<char> {
    match k {
        UserKind::Static => "static"@,
        UserKind::Dynamic => "dynamic"@,
        UserKind::Unknown => "unknown"@,
    }
}

/// Whether an optional field holds a non-empty text.
pub open spec fn present(s: Option<Seq<char>>) -> bool {
    s is Some && s->0.len() > 0
}

/// `Static` iff the id is non-empty; else `Dynamic` iff the IP is non-empty;
/// else `Unknown`.
pub open spec fn user_kind_of(id: Option<Seq<char>>, ip: Option<Seq<char>>) -> UserKind {
    if present(id) {
        UserKind::Static
    } else if present(ip) {
        UserKind::Dynamic
    } else {
        UserKind::Unknown
    }
}

pub open spec fn opt_view(s: Option<String>) -> Option<Seq<char>> {
    match s {
        Some(t) => Some(t@),
        None => None,
    }
}

/// An optional text with the empty text taken as absent.
pub open spec fn non_empty(s: Option<Seq<char>>) -> Option<Seq<char>> {
    if present(s) {
        s
    } else {
        None
    }
}

impl UserKind {
    /// The lower-case name of the kind.
    pub fn name(&self) -> (r: &'static str)
        ensures
            r@ == user_kind_name(*self),
    {
        match self {
            UserKind::Static => "static",
            UserKind::Dynamic => "dynamic",
            UserKind::Unknown => "unknown",
        }
    }

    /// The kind of an author from its id and IP fields.
    pub fn parse(id: &Option<String>, ip: &Option<String>) -> (r: UserKind)
        ensures
            r == user_kind_of(opt_view(*id), opt_view(*ip)),
    {
        let has_id = match id {
            Some(t) => t.as_str().unicode_len() > 0,
            None => false,
        };
        let has_ip = match ip {
            Some(t) => t.as_str().unicode_len() > 0,
            None => false,
        };
        if has_id {
            UserKind::Static
        } else if has_ip {
            UserKind::Dynamic
        } else {
            UserKind::Unknown
        }
    }
}

/// An author; the nickname is always there.
#[derive(Debug, PartialEq, Eq, Clone)]
pub struct User {
    pub id: Option<String>,
    pub ip: Option<String>,
    pub nickname: String,
    pub kind: UserKind,
}

/// Keeps a non-empty text, drops an empty one.
pub fn non_empty_string(s: Option<String>) -> (r: Option<String>)
    ensures
        opt_view(r) == non_empty(opt_view(s)),
{
    match s {
        Some(t) => {
            if t.as_str().unicode_len() > 0 {
                Some(t)
            } else {
                None
            }
        },
        None => None,
    }
}

impl User {
    /// The author with the given fields: empty id and IP are taken as
    /// absent, and the kind is derived from them.
    pub fn from_fields(id: Option<String>, ip: Option<String>, nickname: String) -> (r: User)
        ensures
            r.kind == user_kind_of(opt_view(id), opt_view(ip)),
            opt_view(r.id) == non_empty(opt_view(id)),
            opt_view(r.ip) == non_empty(opt_view(ip)),
            r.nickname@ == nickname@,
    {
        let kind = UserKind::parse(&id, &ip);
        User { id: non_empty_string(id), ip: non_empty_string(ip), nickname, kind }
    }
}

/// What a comment's payload is.
#[derive(Debug, PartialEq, Eq, Structural, Clone, Copy)]
pub enum CommentKind {
    Text,
    Con,
    Voice,
}

pub open spec fn comment_kind_name(k: CommentKind) -> Seq<char> {
    match k {
        CommentKind::Text => "text"@,
        CommentKind::Con => "con"@,
        CommentKind::Voice => "voice"@,
    }
}

/// `<img…` is a sticker, `vr/…` a voice clip, anything else text.
pub open spec fn comment_kind_of(contents: Seq<char>) -> CommentKind {
    if crate::text::is_prefix("<img"@, contents) {
        CommentKind::Con
    } else if crate::text::is_prefix("vr/"@, contents) {
        CommentKind::Voice
    } else {
        CommentKind::Text
    }
}

impl CommentKind {
    /// The lower-case name of the kind.
    pub fn name(&self) -> (r: &'static str)
        ensures
            r@ == comment_kind_name(*self),
    {
        match self {
            CommentKind::Text => "text",
            CommentKind::Con => "con",
            CommentKind::Voice => "voice",
        }
    }

    /// The kind of a comment from the start of its payload.
    pub fn from_contents(contents: &str) -> (r: CommentKind)
        ensures
            r == comment_kind_of(contents@),
    {
        if crate::text::starts_with(contents, "<img") {
            CommentKind::Con
        } else if crate::text::starts_with(contents, "vr/") {
            CommentKind::Voice
        } else {
            CommentKind::Text
        }
    }
}

/// A gallery as found in a rank feed.
#[derive(Debug, PartialEq, Eq, Clone)]
pub struct GalleryIndex {
    pub id: String,
    pub name: String,
    pub kind: GalleryKind,
    pub rank: Option<usize>,
}

impl GalleryIndex {
    /// A field-for-field copy.
    pub fn copied(&self) -> (r: GalleryIndex)
        ensures
            r == *self,
    {
        GalleryIndex {
            id: self.id.clone(),
            name: self.name.clone(),
            kind: self.kind,
            rank: self.rank,
        }
    }
}

/// The gallery metadata embedded in a published document.
#[derive(Debug, PartialEq, Eq, Clone)]
pub struct Gallery {
    pub id: String,
    pub name: String,
    pub kind: GalleryKind,
}

impl Gallery {
    /// The gallery of a rank-feed entry: its id, name and kind.
    pub fn from_index(o: GalleryIndex) -> (r: Gallery)
        ensures
            r.id == o.id,
            r.name == o.name,
            r.kind == o.kind,
    {
        Gallery { id: o.id, name: o.name, kind: o.kind }
    }
}

/// The classified outcome of a failed crawl, as reported to the directory.
#[derive(Debug, PartialEq, Eq, Structural, Clone, Copy)]
pub enum CrawlerErrorReport {
    Unknown,
    AdultPage,
    MinorGalleryAccessNotAllowed,
    MinorGalleryClosed,
    MinorGalleryPromoted,
    PageNotFound,
}

/// The directory's durable record of one gallery.
///
/// The publish-duration estimate is kept in milliseconds.
#[derive(Debug, PartialEq, Eq, Clone)]
pub struct GalleryState {
    pub index: GalleryIndex,
    pub last_ranked: Timestamp,
    pub last_crawled_at: Option<Timestamp>,
    pub last_crawled_document_id: Option<usize>,
    pub visible: bool,
    pub last_error: Option<CrawlerErrorReport>,
    pub publish_duration_millis: Option<i64>,
    pub last_published_at: Option<Timestamp>,
    pub registered_at: Option<Timestamp>,
}

impl GalleryState {
    /// A field-for-field copy.
    pub fn copied(&self) -> (r: GalleryState)
        ensures
            r == *self,
    {
        GalleryState {
            index: self.index.copied(),
            last_ranked: self.last_ranked,
            last_crawled_at: self.last_crawled_at,
            last_crawled_document_id: self.last_crawled_document_id,
            visible: self.visible,
            last_error: self.last_error,
            publish_duration_millis: self.publish_duration_millis,
            last_published_at: self.last_published_at,
            registered_at: self.registered_at,
        }
    }
}

/// A worker's report of a successful crawl of one gallery.
#[derive(Debug, PartialEq, Eq, Clone)]
pub struct GalleryCrawlReportForm {
    pub worker_part: u64,
    pub id: String,
    pub last_crawled_at: Option<Timestamp>,
    pub last_crawled_document_id: Option<usize>,
    pub crawled_document_count: usize,
}

/// A worker's report of a failed crawl of one gallery.
#[derive(Debug, PartialEq, Eq, Clone)]
pub struct GalleryCrawlErrorReportForm {
    pub worker_part: u64,
    pub id: String,
    pub last_crawled_at: Option<Timestamp>,
    pub error: CrawlerErrorReport,
}

/// The shard a worker asks the directory for.
#[derive(Debug, PartialEq, Eq, Structural, Clone, Copy)]
pub struct ListPartQuery {
    pub part: u64,
    pub total: u64,
}

impl User {
    /// A field-for-field copy.
    pub fn copied(&self) -> (r: User)
        ensures
            r == *self,
    {
        User {
            id: match &self.id {
                Some(t) => Some(t.clone()),
                None => None,
            },
            ip: match &self.ip {
                Some(t) => Some(t.clone()),
                None => None,
            },
            nickname: self.nickname.clone(),
            kind: self.kind,
        }
    }
}

/// One comment under a post. `parent_id` is filled in by threading after
/// parsing.
#[derive(Debug, PartialEq, Eq, Clone)]
pub struct Comment {
    pub id: usize,
    pub author: User,
    pub depth: usize,
    pub contents: String,
    pub kind: CommentKind,
    pub parent_id: Option<usize>,
    pub created_at: Option<Timestamp>,
}

impl Comment {
    /// A field-for-field copy.
    pub fn copied(&self) -> (r: Comment)
        ensures
            r == *self,
    {
        Comment {
            id: self.id,
            author: self.author.copied(),
            depth: self.depth,
            contents: self.contents.clone(),
            kind: self.kind,
            parent_id: self.parent_id,
            created_at: self.created_at,
        }
    }
}

/// One row of a gallery listing.
#[derive(Debug, PartialEq, Eq, Clone)]
pub struct DocumentIndex {
    pub gallery_id: String,
    pub id: usize,
    pub title: String,
    pub subject: Option<String>,
    pub author: User,
    pub comment_count: u32,
    pub like_count: u32,
    pub view_count: u32,
    pub kind: DocumentKind,
    pub is_recommend: bool,
    pub created_at: Timestamp,
}

/// The canonical record published for one post: its gallery, its listing
/// row, and optionally its comments and body.
#[derive(Debug, PartialEq, Eq, Clone)]
pub struct Document {
    pub gallery: Gallery,
    pub gallery_id: String,
    pub id: usize,
    pub title: String,
    pub subject: Option<String>,
    pub author: User,
    pub comment_count: u32,
    pub like_count: u32,
    pub view_count: u32,
    pub kind: DocumentKind,
    pub is_recommend: bool,
    pub created_at: Timestamp,
    pub comments: Option<Vec<Comment>>,
    pub body: Option<String>,
}

/// The document of listing row `i` in gallery `g`, with what was fetched
/// besides.
pub open spec fn document_of(
    g: GalleryIndex,
    i: DocumentIndex,
    comments: Option<Vec<Comment>>,
    body: Option<String>,
) -> Document {
    Document {
        gallery: Gallery { id: g.id, name: g.name, kind: g.kind },
        gallery_id: i.gallery_id,
        id: i.id,
        title: i.title,
        subject: i.subject,
        author: i.author,
        comment_count: i.comment_count,
        like_count: i.like_count,
        view_count: i.view_count,
        kind: i.kind,
        is_recommend: i.is_recommend,
        created_at: i.created_at,
        comments,
        body,
    }
}

impl Document {
    /// The document of a listing row in a gallery, with what was fetched
    /// besides.
    pub fn from_indexes(
        gallery_index: GalleryIndex,
        doc_index: DocumentIndex,
        comments: Option<Vec<Comment>>,
        body: Option<String>,
    ) -> (r: Document)
        ensures
            r == document_of(gallery_index, doc_index, comments, body),
    {
        Document {
            gallery: Gallery::from_index(gallery_index),
            gallery_id: doc_index.gallery_id,
            id: doc_index.id,
            title: doc_index.title,
            subject: doc_index.subject,
            author: doc_index.author,
            comment_count: doc_index.comment_count,
            like_count: doc_index.like_count,
            view_count: doc_index.view_count,
            kind: doc_index.kind,
            is_recommend: doc_index.is_recommend,
            created_at: doc_index.created_at,
            comments,
            body,
        }
    }
}

} // verus!
