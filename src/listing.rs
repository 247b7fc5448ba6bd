//! Listing pages: the terminal page states, and the rows read into
//! `DocumentIndex` records.

use vstd::prelude::*;
use crate::model::{
    DocumentIndex, DocumentKind, User, opt_view, non_empty, user_kind_of, document_kind_from_icons,
};
use crate::error::{DocumentParseError, ListingField};
use crate::text::{is_prefix, is_infix, parse_unsigned, trimmed, trimmed_by, bracket_pred};
use crate::time::dashed_time_of;

verus! {

/// The start of the redirect an adult-only gallery answers with.
pub const ADULT_PREFIX: &'static str = "<script type=\"text/javascript\">location.replace(\"/error/adult";

/// The start of the alert for a minor gallery its manager closed.
pub const CLOSED_PREFIX: &'static str = "<script type=\"text/javascript\">alert(\"해당 마이너 갤러리는 매니저의 요청으로 폐쇄되었습니다.";

/// The start of the alert for a minor gallery that broke the site's policy.
pub const POLICY_PREFIX: &'static str = "<script type=\"text/javascript\">alert(\"해당 마이너 갤러리는 운영원칙 위반";

/// The word that tells a policy closure from a restriction.
pub const CLOSED_WORD: &'static str = "폐쇄";

/// The start of the redirect a minor gallery promoted to major answers with.
pub const PROMOTED_PREFIX: &'static str = "<script type=\"text/javascript\">location.replace(\"https://gall.dcinside.com/board/lists?";

/// The class that marks a restricted minor gallery.
pub const RESTRICTION_CLASS: &'static str = "restriction";

/// The terminal state a listing page is in, if any: checked in order, the
/// adult redirect, a manager's closure, a policy closure or restriction, a
/// promotion, and the restriction marker (the class of the page's first
/// `.migall_state` element).
pub open spec fn page_state(body: Seq<char>, state_class: Option<Seq<char>>) -> Option<DocumentParseError> {
    if is_prefix(ADULT_PREFIX@, body) {
        Some(DocumentParseError::AdultPage)
    } else if is_prefix(CLOSED_PREFIX@, body) {
        Some(DocumentParseError::MinorGalleryClosed)
    } else if is_prefix(POLICY_PREFIX@, body) {
        if is_infix(CLOSED_WORD@, body) {
            Some(DocumentParseError::MinorGalleryClosed)
        } else {
            Some(DocumentParseError::MinorGalleryAccessNotAllowed)
        }
    } else if is_prefix(PROMOTED_PREFIX@, body) {
        Some(DocumentParseError::MinorGalleryPromoted)
    } else if state_class is Some && is_infix(RESTRICTION_CLASS@, state_class->0) {
        Some(DocumentParseError::MinorGalleryAccessNotAllowed)
    } else {
        None
    }
}

/// The terminal state of a listing page whose body is `body` and whose first
/// `.migall_state` element has class `state_class`.
pub fn classify_listing(body: &str, state_class: &Option<String>) -> (r: Option<DocumentParseError>)
    ensures
        r == page_state(body@, opt_view(*state_class)),
{
    if crate::text::starts_with(body, ADULT_PREFIX) {
        Some(DocumentParseError::AdultPage)
    } else if crate::text::starts_with(body, CLOSED_PREFIX) {
        Some(DocumentParseError::MinorGalleryClosed)
    } else if crate::text::starts_with(body, POLICY_PREFIX) {
        if crate::text::contains(body, CLOSED_WORD) {
            Some(DocumentParseError::MinorGalleryClosed)
        } else {
            Some(DocumentParseError::MinorGalleryAccessNotAllowed)
        }
    } else if crate::text::starts_with(body, PROMOTED_PREFIX) {
        Some(DocumentParseError::MinorGalleryPromoted)
    } else {
        match state_class {
            Some(c) => if crate::text::contains(c.as_str(), RESTRICTION_CLASS) {
                Some(DocumentParseError::MinorGalleryAccessNotAllowed)
            } else {
                None
            },
            None => None,
        }
    }
}

/// The attributes of a row's `.gall_writer` element.
#[derive(Debug, PartialEq, Eq, Clone)]
pub struct RawWriter {
    pub nick: Option<String>,
    pub ip: Option<String>,
    pub uid: Option<String>,
}

/// What a listing row (`.us-post`) shows, field by field; `None` where the
/// element is missing. `date` is the `.gall_date` element's `title`, inside
/// `Some` when the element is there.
#[derive(Debug, PartialEq, Eq, Clone)]
pub struct RawRow {
    pub num: Option<String>,
    pub title: Option<String>,
    pub subject: Option<String>,
    pub writer: Option<RawWriter>,
    pub reply: Option<String>,
    pub recommend: Option<String>,
    pub count: Option<String>,
    pub has_picture: bool,
    pub has_video: bool,
    pub is_recommend: bool,
    pub date: Option<Option<String>>,
}

fn copy_text(s: &Option<String>) -> (r: Option<String>)
    ensures
        r == *s,
{
    match s {
        Some(t) => Some(t.clone()),
        None => None,
    }
}

impl RawRow {
    /// A field-for-field copy.
    pub fn copied(&self) -> (r: RawRow)
        ensures
            r == *self,
    {
        RawRow {
            num: copy_text(&self.num),
            title: copy_text(&self.title),
            subject: copy_text(&self.subject),
            writer: match &self.writer {
                Some(w) => Some(
                    RawWriter { nick: copy_text(&w.nick), ip: copy_text(&w.ip), uid: copy_text(&w.uid) },
                ),
                None => None,
            },
            reply: copy_text(&self.reply),
            recommend: copy_text(&self.recommend),
            count: copy_text(&self.count),
            has_picture: self.has_picture,
            has_video: self.has_video,
            is_recommend: self.is_recommend,
            date: match &self.date {
                Some(d) => Some(copy_text(d)),
                None => None,
            },
        }
    }
}

pub open spec fn u32_max() -> nat {
    0xffff_ffff
}

/// The first thing wrong with a row, in the order its fields are read.
pub open spec fn row_error(r: RawRow) -> Option<DocumentParseError> {
    if r.num is None {
        Some(DocumentParseError::Select(ListingField::Number))
    } else if parse_unsigned(r.num->0@, usize::MAX as nat) is None {
        Some(DocumentParseError::NumberParse(ListingField::Number))
    } else if r.title is None {
        Some(DocumentParseError::Select(ListingField::Title))
    } else if r.writer is None {
        Some(DocumentParseError::Select(ListingField::Writer))
    } else if r.writer->0.nick is None {
        Some(DocumentParseError::Select(ListingField::Nickname))
    } else if r.recommend is None {
        Some(DocumentParseError::Select(ListingField::Recommend))
    } else if parse_unsigned(r.recommend->0@, u32_max()) is None {
        Some(DocumentParseError::NumberParse(ListingField::Recommend))
    } else if r.count is None {
        Some(DocumentParseError::Select(ListingField::Count))
    } else if parse_unsigned(r.count->0@, u32_max()) is None {
        Some(DocumentParseError::NumberParse(ListingField::Count))
    } else if r.date is None {
        Some(DocumentParseError::Select(ListingField::Date))
    } else if r.date->0 is None {
        Some(DocumentParseError::Select(ListingField::DateTitle))
    } else if dashed_time_of(trimmed(r.date->0->0@)) is None {
        Some(DocumentParseError::DatetimeParse(ListingField::DateTitle))
    } else {
        None
    }
}

/// The comment count a row shows as `[n]`; 0 when it shows none.
pub open spec fn comment_count_of(reply: Option<String>) -> nat {
    match reply {
        Some(t) => match parse_unsigned(trimmed_by(trimmed(t@), bracket_pred()), u32_max()) {
            Some(n) => n,
            None => 0,
        },
        None => 0,
    }
}

/// The record a well-formed row stands for.
pub open spec fn index_from(d: DocumentIndex, r: RawRow, gallery_id: Seq<char>) -> bool {
    let w = r.writer->0;
    &&& d.gallery_id@ == gallery_id
    &&& d.id as nat == parse_unsigned(r.num->0@, usize::MAX as nat)->0
    &&& d.title@ == r.title->0@
    &&& opt_view(d.subject) == opt_view(r.subject)
    &&& d.author.nickname@ == w.nick->0@
    &&& d.author.kind == user_kind_of(opt_view(w.uid), opt_view(w.ip))
    &&& opt_view(d.author.id) == non_empty(opt_view(w.uid))
    &&& opt_view(d.author.ip) == non_empty(opt_view(w.ip))
    &&& d.comment_count as nat == comment_count_of(r.reply)
    &&& d.like_count as nat == parse_unsigned(r.recommend->0@, u32_max())->0
    &&& d.view_count as nat == parse_unsigned(r.count->0@, u32_max())->0
    &&& d.kind == document_kind_from_icons(r.has_video, r.has_picture)
    &&& d.is_recommend == r.is_recommend
    &&& Some(d.created_at) == dashed_time_of(trimmed(r.date->0->0@))
}

/// The comment count a row shows.
pub fn comment_count(reply: &Option<String>) -> (r: u32)
    ensures
        r as nat == comment_count_of(*reply),
{
    match reply {
        Some(t) => {
            let inner = crate::text::trim(t.as_str());
            let digits = crate::text::trim_brackets(inner.as_str());
            match crate::text::parse_bounded(digits.as_str(), 0xffff_ffff) {
                Some(n) => n as u32,
                None => 0,
            }
        },
        None => 0,
    }
}

/// Reads one listing row of gallery `gallery_id`.
pub fn document_index_from_row(row: RawRow, gallery_id: &str) -> (r: Result<
    DocumentIndex,
    DocumentParseError,
>)
    ensures
        match row_error(row) {
            Some(e) => r == Err::<DocumentIndex, DocumentParseError>(e),
            None => r is Ok && index_from(r->Ok_0, row, gallery_id@),
        },
{
    let comment_count = comment_count(&row.reply);
    let id: usize = match &row.num {
        None => return Err(DocumentParseError::Select(ListingField::Number)),
        Some(t) => match crate::text::parse_bounded(t.as_str(), usize::MAX as u64) {
            Some(n) => n as usize,
            None => return Err(DocumentParseError::NumberParse(ListingField::Number)),
        },
    };
    let title = match row.title {
        None => return Err(DocumentParseError::Select(ListingField::Title)),
        Some(t) => t,
    };
    let writer = match row.writer {
        None => return Err(DocumentParseError::Select(ListingField::Writer)),
        Some(w) => w,
    };
    let nickname = match writer.nick {
        None => return Err(DocumentParseError::Select(ListingField::Nickname)),
        Some(n) => n,
    };
    let like_count: u32 = match &row.recommend {
        None => return Err(DocumentParseError::Select(ListingField::Recommend)),
        Some(t) => match crate::text::parse_bounded(t.as_str(), 0xffff_ffff) {
            Some(n) => n as u32,
            None => return Err(DocumentParseError::NumberParse(ListingField::Recommend)),
        },
    };
    let view_count: u32 = match &row.count {
        None => return Err(DocumentParseError::Select(ListingField::Count)),
        Some(t) => match crate::text::parse_bounded(t.as_str(), 0xffff_ffff) {
            Some(n) => n as u32,
            None => return Err(DocumentParseError::NumberParse(ListingField::Count)),
        },
    };
    let created_at = match &row.date {
        None => return Err(DocumentParseError::Select(ListingField::Date)),
        Some(None) => return Err(DocumentParseError::Select(ListingField::DateTitle)),
        Some(Some(t)) => {
            let stamp = crate::text::trim(t.as_str());
            match crate::time::parse_dashed_time(stamp.as_str()) {
                Some(at) => at,
                None => return Err(DocumentParseError::DatetimeParse(ListingField::DateTitle)),
            }
        },
    };
    let author = User::from_fields(writer.uid, writer.ip, nickname);
    let gid = crate::text::string_of(&crate::text::chars_of(gallery_id));
    Ok(DocumentIndex {
        gallery_id: gid,
        id,
        title,
        subject: row.subject,
        author,
        comment_count,
        like_count,
        view_count,
        kind: DocumentKind::from_icons(row.has_video, row.has_picture),
        is_recommend: row.is_recommend,
        created_at,
    })
}

/// What the listing parser takes from a page's HTML: the class of its
/// first `.migall_state` element, its `#e_s_n_o` element's value (inside
/// `Some` when the element is there), and its rows.
#[derive(Debug, PartialEq, Eq, Clone)]
pub struct ListingPage {
    pub state_class: Option<String>,
    pub token: Option<Option<String>>,
    pub rows: Vec<RawRow>,
}

/// Every row read, each to its record or its own error.
pub open spec fn rows_read(out: Seq<Result<DocumentIndex, DocumentParseError>>, rows: Seq<RawRow>, gallery_id: Seq<char>) -> bool {
    &&& out.len() == rows.len()
    &&& forall|i: int|
        0 <= i < out.len() ==> match row_error(rows[i]) {
            Some(e) => #[trigger] out[i] == Err::<DocumentIndex, DocumentParseError>(e),
            None => out[i] is Ok && index_from(out[i]->Ok_0, rows[i], gallery_id),
        }
}

/// Reads a listing page: a terminal page state fails the page; otherwise
/// every row is read, a bad row failing alone.
pub fn parse_document_indexes(body: &str, page: ListingPage, gallery_id: &str) -> (r: Result<
    Vec<Result<DocumentIndex, DocumentParseError>>,
    DocumentParseError,
>)
    ensures
        match page_state(body@, opt_view(page.state_class)) {
            Some(e) => r == Err::<Vec<Result<DocumentIndex, DocumentParseError>>, DocumentParseError>(e),
            None => r is Ok && rows_read(r->Ok_0@, page.rows@, gallery_id@),
        },
{
    if let Some(e) = classify_listing(body, &page.state_class) {
        return Err(e);
    }
    let rows = page.rows;
    let mut out: Vec<Result<DocumentIndex, DocumentParseError>> = Vec::new();
    let mut i: usize = 0;
    while i < rows.len()
        invariant
            i <= rows@.len(),
            rows_read(out@, rows@.subrange(0, i as int), gallery_id@),
        decreases rows@.len() - i,
    {
        let res = document_index_from_row(rows[i].copied(), gallery_id);
        out.push(res);
        i = i + 1;
    }
    assert(rows@.subrange(0, rows@.len() as int) =~= rows@);
    Ok(out)
}

/// The page's anti-forgery token.
pub fn listing_token(page: &ListingPage) -> (r: Result<String, DocumentParseError>)
    ensures
        match page.token {
            Some(Some(t)) => r is Ok && r->Ok_0@ == t@,
            _ => r == Err::<String, DocumentParseError>(DocumentParseError::Select(ListingField::Token)),
        },
{
    match &page.token {
        Some(Some(t)) => Ok(t.clone()),
        _ => Err(DocumentParseError::Select(ListingField::Token)),
    }
}

} // verus!
