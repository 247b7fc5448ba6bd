//! The crawler's decisions between requests: which URL to fetch, what to
//! post for comments, when to stop paging, and how a post becomes a
//! document.

use vstd::prelude::*;
use crate::model::{Comment, Document, DocumentIndex, GalleryIndex, GalleryKind, document_of};
use crate::error::{CrawlerError, DocumentParseError};
use crate::text::decimal_of;

verus! {

/// The site every request goes to.
pub const HOST: &'static str = "https://gall.dcinside.com";

/// The last listing or comment page ever requested.
pub const MAX_PAGE: usize = 1000;

/// The page a worker starts listing from; page 1 is reshuffled by pinned posts.
pub const DEFAULT_START_PAGE: usize = 2;

/// The pause between two pages, in milliseconds.
pub const DEFAULT_DELAY_MILLIS: u64 = 100;

/// The listing path of a gallery kind; Mini galleries have none.
pub open spec fn listing_path_of(kind: GalleryKind) -> Option<Seq<char>> {
    match kind {
        GalleryKind::Major => Some("/board/lists?id="@),
        GalleryKind::Minor => Some("/mgallery/board/lists?id="@),
        GalleryKind::Mini => None,
    }
}

/// The URL of page `page` of a gallery's listing, a hundred rows a page.
pub open spec fn listing_url_of(kind: GalleryKind, id: Seq<char>, page: nat) -> Option<Seq<char>> {
    match listing_path_of(kind) {
        Some(p) => Some(HOST@ + p + id + "&list_num=100&page="@ + decimal_of(page)),
        None => None,
    }
}

/// The URL of a page of a gallery's listing; Mini galleries are refused
/// before anything is fetched.
pub fn listing_url(gallery: &GalleryIndex, page: usize) -> (r: Result<String, CrawlerError>)
    ensures
        match listing_url_of(gallery.kind, gallery.id@, page as nat) {
            Some(u) => r is Ok && r->Ok_0@ == u,
            None => r == Err::<String, CrawlerError>(CrawlerError::UnsupportedGalleryKind),
        },
{
    let path = match gallery.kind {
        GalleryKind::Major => "/board/lists?id=",
        GalleryKind::Minor => "/mgallery/board/lists?id=",
        GalleryKind::Mini => return Err(CrawlerError::UnsupportedGalleryKind),
    };
    let mut url = String::from_str(HOST);
    url.append(path);
    url.append(gallery.id.as_str());
    url.append("&list_num=100&page=");
    let n = crate::text::decimal(page as u64);
    url.append(n.as_str());
    Ok(url)
}

/// The page the comment form refers to: the post's view page.
pub open spec fn comment_referer_of(gallery_id: Seq<char>, doc_id: nat) -> Seq<char> {
    HOST@ + "/board/view/?id="@ + gallery_id + "&no="@ + decimal_of(doc_id) + "&_rk=tDl&page=1"@
}

/// The referer a comment request must carry.
pub fn comment_referer(gallery_id: &str, doc_id: usize) -> (r: String)
    ensures
        r@ == comment_referer_of(gallery_id@, doc_id as nat),
{
    let mut url = String::from_str(HOST);
    url.append("/board/view/?id=");
    url.append(gallery_id);
    url.append("&no=");
    let n = crate::text::decimal(doc_id as u64);
    url.append(n.as_str());
    url.append("&_rk=tDl&page=1");
    url
}

/// The comment form's fields. The first page is asked in the site's
/// default order (`sort` empty), later ones newest first (`D`).
#[derive(Debug, PartialEq, Eq, Clone)]
pub struct CommentRequest {
    pub id: String,
    pub no: usize,
    pub cmt_id: String,
    pub cmt_no: usize,
    pub e_s_n_o: Option<String>,
    pub comment_page: usize,
    pub sort: String,
    pub prev_cnt: usize,
    pub gall_type: String,
}

/// The gallery type the comment form names: `G` for Major, `M` for Minor.
pub open spec fn gall_type_of(kind: GalleryKind) -> Option<Seq<char>> {
    match kind {
        GalleryKind::Major => Some("G"@),
        GalleryKind::Minor => Some("M"@),
        GalleryKind::Mini => None,
    }
}

pub open spec fn sort_of(page: nat) -> Seq<char> {
    if page == 1 {
        ""@
    } else {
        "D"@
    }
}

/// The comment form for page `page` of post `doc_id`, carrying the cached
/// anti-forgery token.
pub fn comment_request(gallery: &GalleryIndex, doc_id: usize, page: usize, token: &Option<String>) -> (r: Result<
    CommentRequest,
    CrawlerError,
>)
    ensures
        match gall_type_of(gallery.kind) {
            None => r == Err::<CommentRequest, CrawlerError>(CrawlerError::UnsupportedGalleryKind),
            Some(t) => r is Ok && r->Ok_0.gall_type@ == t && r->Ok_0.id@ == gallery.id@
                && r->Ok_0.cmt_id@ == gallery.id@ && r->Ok_0.no == doc_id && r->Ok_0.cmt_no == doc_id
                && r->Ok_0.e_s_n_o == *token && r->Ok_0.comment_page == page
                && r->Ok_0.sort@ == sort_of(page as nat) && r->Ok_0.prev_cnt == 0,
        },
{
    let gall_type = match gallery.kind {
        GalleryKind::Major => "G",
        GalleryKind::Minor => "M",
        GalleryKind::Mini => return Err(CrawlerError::UnsupportedGalleryKind),
    };
    let sort = if page == 1 {
        ""
    } else {
        "D"
    };
    Ok(CommentRequest {
        id: gallery.id.clone(),
        no: doc_id,
        cmt_id: gallery.id.clone(),
        cmt_no: doc_id,
        e_s_n_o: match token {
            Some(t) => Some(t.clone()),
            None => None,
        },
        comment_page: page,
        sort: String::from_str(sort),
        prev_cnt: 0,
        gall_type: String::from_str(gall_type),
    })
}

// ---------------------------------------------------------------------------
// Paging

pub open spec fn has_ok(page: Seq<Result<DocumentIndex, DocumentParseError>>) -> bool {
    exists|i: int| 0 <= i < page.len() && (#[trigger] page[i]) is Ok
}

/// The smallest id among the rows read.
pub open spec fn min_ok_id(rows: Seq<Result<DocumentIndex, DocumentParseError>>) -> Option<usize>
    decreases rows.len(),
{
    if rows.len() == 0 {
        None
    } else {
        let m = min_ok_id(rows.drop_last());
        match rows.last() {
            Ok(d) => match m {
                Some(x) => if d.id < x {
                    Some(d.id)
                } else {
                    Some(x)
                },
                None => Some(d.id),
            },
            Err(_) => m,
        }
    }
}

/// The walk down a gallery's listing: the rows gathered so far, the next
/// page to fetch, and whether to stop. Paging stops at a page with no
/// readable row (which is dropped), once the smallest id gathered is at or
/// below the last post already seen, or at the page cap.
pub struct ListingWalk {
    pub rows: Vec<Result<DocumentIndex, DocumentParseError>>,
    pub smallest: Option<usize>,
    pub next_page: usize,
    pub last_document_id: usize,
    pub done: bool,
}

impl View for ListingWalk {
    type V = Seq<Result<DocumentIndex, DocumentParseError>>;

    open spec fn view(&self) -> Seq<Result<DocumentIndex, DocumentParseError>> {
        self.rows@
    }
}

impl ListingWalk {
    pub open spec fn wf(&self) -> bool {
        self.smallest == min_ok_id(self.rows@)
    }

    /// A walk from `start_page` for a gallery last crawled up to post
    /// `last_document_id`.
    pub fn new(start_page: usize, last_document_id: usize) -> (r: ListingWalk)
        ensures
            r.wf(),
            r@ == Seq::<Result<DocumentIndex, DocumentParseError>>::empty(),
            r.next_page == start_page,
            r.last_document_id == last_document_id,
            r.done == (start_page >= MAX_PAGE),
    {
        let w = ListingWalk {
            rows: Vec::new(),
            smallest: None,
            next_page: start_page,
            last_document_id,
            done: start_page >= MAX_PAGE,
        };
        assert(w.rows@.len() == 0);
        w
    }

    /// Takes in the rows of page `next_page`.
    pub fn feed(&mut self, page: Vec<Result<DocumentIndex, DocumentParseError>>)
        requires
            old(self).wf(),
            !old(self).done,
            old(self).next_page < MAX_PAGE,
        ensures
            final(self).wf(),
            final(self).last_document_id == old(self).last_document_id,
            !has_ok(page@) ==> final(self)@ == old(self)@ && final(self).done
                && final(self).next_page == old(self).next_page,
            has_ok(page@) ==> final(self)@ == old(self)@ + page@ && final(self).next_page
                == old(self).next_page + 1 && final(self).done == (min_ok_id(final(self)@)->0
                <= old(self).last_document_id || final(self).next_page >= MAX_PAGE),
    {
        let mut any = false;
        let mut j: usize = 0;
        while j < page.len()
            invariant
                j <= page@.len(),
                any == exists|k: int| 0 <= k < j && (#[trigger] page@[k]) is Ok,
            decreases page@.len() - j,
        {
            if page[j].is_ok() {
                any = true;
            }
            j = j + 1;
        }
        if !any {
            self.done = true;
            return;
        }
        let ghost before = self.rows@;
        let mut page = page;
        let ghost all = page@;
        let n = page.len();
        let mut i: usize = 0;
        while i < n
            invariant
                n == all.len(),
                i <= n,
                page@ == all.subrange(i as int, n as int),
                self.rows@ == before + all.subrange(0, i as int),
                self.smallest == min_ok_id(self.rows@),
                self.next_page == old(self).next_page,
                self.last_document_id == old(self).last_document_id,
            decreases n - i,
        {
            let row = page.remove(0);
            assert(page@ =~= all.subrange(i + 1, n as int));
            assert(row == all[i as int]);
            match &row {
                Ok(d) => {
                    self.smallest = match self.smallest {
                        Some(x) => if d.id < x {
                            Some(d.id)
                        } else {
                            Some(x)
                        },
                        None => Some(d.id),
                    };
                },
                Err(_) => {},
            }
            let ghost prev = self.rows@;
            self.rows.push(row);
            assert(self.rows@.drop_last() == prev);
            assert(self.rows@ =~= before + all.subrange(0, i + 1));
            i = i + 1;
        }
        assert(all.subrange(0, n as int) =~= all);
        proof {
            let k = choose|k: int| 0 <= k < all.len() && (#[trigger] all[k]) is Ok;
            assert(self.rows@[before.len() + k] == all[k]);
            lemma_min_some(self.rows@, before.len() + k);
        }
        self.next_page = self.next_page + 1;
        self.done = match self.smallest {
            Some(x) => x <= self.last_document_id,
            None => true,
        } || self.next_page >= MAX_PAGE;
    }

    /// The rows worth crawling once the walk is over.
    pub fn finish(self) -> (r: Vec<Result<DocumentIndex, DocumentParseError>>)
        ensures
            r@ == self@.filter(newer_than(self.last_document_id)),
    {
        rows_after(self.rows, self.last_document_id)
    }
}

proof fn lemma_min_some(rows: Seq<Result<DocumentIndex, DocumentParseError>>, k: int)
    requires
        0 <= k < rows.len(),
        rows[k] is Ok,
    ensures
        min_ok_id(rows) is Some,
    decreases rows.len(),
{
    if k < rows.len() - 1 {
        assert(rows.drop_last()[k] == rows[k]);
        lemma_min_some(rows.drop_last(), k);
    }
}

pub open spec fn newer_than(last_document_id: usize) -> spec_fn(Result<DocumentIndex, DocumentParseError>) -> bool {
    |d: Result<DocumentIndex, DocumentParseError>| d is Err || d->Ok_0.id > last_document_id
}

/// The rows worth crawling: every unreadable row, and every post newer than
/// `last_document_id`, in order.
pub fn rows_after(rows: Vec<Result<DocumentIndex, DocumentParseError>>, last_document_id: usize) -> (r: Vec<
    Result<DocumentIndex, DocumentParseError>,
>)
    ensures
        r@ == rows@.filter(newer_than(last_document_id)),
{
    let mut out: Vec<Result<DocumentIndex, DocumentParseError>> = Vec::new();
    let mut rows = rows;
    let ghost all = rows@;
    let mut i: usize = 0;
    let n = rows.len();
    while i < n
        invariant
            n == all.len(),
            i <= n,
            rows@ == all.subrange(i as int, n as int),
            out@ == all.subrange(0, i as int).filter(newer_than(last_document_id)),
        decreases n - i,
    {
        let d = rows.remove(0);
        assert(d == all[i as int]);
        assert(rows@ =~= all.subrange(i + 1, n as int));
        proof {
            assert(all.subrange(0, i + 1).drop_last() =~= all.subrange(0, i as int));
            assert(all.subrange(0, i + 1).last() == all[i as int]);
            reveal(Seq::filter);
        }
        let keep = match &d {
            Ok(x) => x.id > last_document_id,
            Err(_) => true,
        };
        if keep {
            out.push(d);
        }
        i = i + 1;
    }
    assert(all.subrange(0, n as int) =~= all);
    out
}

/// Appends a newest-first comment page to a newest-first list.
pub fn push_page_reversed(acc: &mut Vec<Comment>, page: Vec<Comment>)
    ensures
        final(acc)@ == old(acc)@ + page@.reverse(),
{
    let mut page = page;
    let ghost orig = page@;
    let ghost start = acc@;
    while page.len() > 0
        invariant
            orig.len() >= page@.len(),
            page@ == orig.subrange(0, page@.len() as int),
            acc@ == start + orig.subrange(page@.len() as int, orig.len() as int).reverse(),
        decreases page@.len(),
    {
        let c = page.pop().unwrap();
        proof {
            let k = page@.len() as int;
            assert(orig.subrange(k, orig.len() as int).reverse() =~= orig.subrange(
                k + 1,
                orig.len() as int,
            ).reverse().push(orig[k]));
        }
        acc.push(c);
    }
    assert(orig.subrange(0, orig.len() as int) =~= orig);
}

/// The comments in chronological order, from a newest-first list.
pub fn chronological(comments: Vec<Comment>) -> (r: Vec<Comment>)
    ensures
        r@ == comments@.reverse(),
{
    let mut out: Vec<Comment> = Vec::new();
    push_page_reversed(&mut out, comments);
    assert(Seq::<Comment>::empty() + comments@.reverse() =~= comments@.reverse());
    out
}

/// The walk through a post's comment pages: the comments gathered so far,
/// newest first, the next page to fetch, and whether to stop. Paging stops
/// at an empty page, after the last page the pagination names, or at the
/// page cap.
pub struct CommentWalk {
    pub newest_first: Vec<Comment>,
    pub next_page: usize,
    pub done: bool,
}

impl CommentWalk {
    /// A walk from the first page.
    pub fn new() -> (r: CommentWalk)
        ensures
            r.newest_first@.len() == 0,
            r.next_page == 1,
            !r.done,
    {
        CommentWalk { newest_first: Vec::new(), next_page: 1, done: false }
    }

    /// Takes in page `next_page`, read newest first, whose pagination names
    /// `max_page` as the last.
    pub fn feed(&mut self, page: Vec<Comment>, max_page: usize)
        requires
            !old(self).done,
            old(self).next_page < MAX_PAGE,
        ensures
            page@.len() == 0 ==> final(self).newest_first@ == old(self).newest_first@
                && final(self).done && final(self).next_page == old(self).next_page,
            page@.len() > 0 ==> final(self).newest_first@ == old(self).newest_first@
                + page@.reverse() && final(self).next_page == old(self).next_page + 1
                && final(self).done == (max_page <= old(self).next_page || final(self).next_page
                >= MAX_PAGE),
    {
        if page.len() == 0 {
            self.done = true;
            return;
        }
        let current = self.next_page;
        push_page_reversed(&mut self.newest_first, page);
        self.next_page = current + 1;
        self.done = max_page <= current || self.next_page >= MAX_PAGE;
    }

    /// The comments gathered, in chronological order.
    pub fn finish(self) -> (r: Vec<Comment>)
        ensures
            r@ == self.newest_first@.reverse(),
    {
        chronological(self.newest_first)
    }
}

// ---------------------------------------------------------------------------
// Documents

/// Only posts that show comments have their comments fetched.
pub fn wants_comments(index: &DocumentIndex) -> (r: bool)
    ensures
        r == (index.comment_count > 0),
{
    index.comment_count > 0
}

/// The document of a listing row: with its comments when they were fetched,
/// failing when fetching them failed. Bodies are not fetched.
pub fn assemble_document(
    gallery: &GalleryIndex,
    index: DocumentIndex,
    comments: Option<Result<Vec<Comment>, CrawlerError>>,
) -> (r: Result<Document, CrawlerError>)
    ensures
        match comments {
            Some(Err(e)) => r == Err::<Document, CrawlerError>(e),
            Some(Ok(cs)) => r == Ok::<Document, CrawlerError>(document_of(*gallery, index, Some(cs), None)),
            None => r == Ok::<Document, CrawlerError>(document_of(*gallery, index, None, None)),
        },
{
    let cs = match comments {
        Some(Err(e)) => return Err(e),
        Some(Ok(cs)) => Some(cs),
        None => None,
    };
    Ok(Document::from_indexes(gallery.copied(), index, cs, None))
}

} // verus!
