use dcinside_crawler::backoff::{BackOff, BackOffStep};
use dcinside_crawler::comment::CommentParseError;
use dcinside_crawler::crawl::{
    assemble_document, chronological, comment_referer, comment_request,
    listing_url, push_page_reversed, rows_after, wants_comments, CommentWalk, ListingWalk,
};
use dcinside_crawler::error::{CrawlerError, DocumentParseError, ListingField};
use dcinside_crawler::jsonp::{strip_jsonp, with_kind};
use dcinside_crawler::model::{
    Comment, CommentKind, CrawlerErrorReport, Document, DocumentIndex, DocumentKind, GalleryIndex,
    GalleryKind, User, UserKind,
};

fn gallery(kind: GalleryKind) -> GalleryIndex {
    GalleryIndex { id: "programming".to_string(), name: "프로그래밍".to_string(), kind, rank: None }
}

fn doc(id: usize, comment_count: u32) -> DocumentIndex {
    DocumentIndex {
        gallery_id: "programming".to_string(),
        id,
        title: "t".to_string(),
        subject: None,
        author: User { id: None, ip: None, nickname: "n".to_string(), kind: UserKind::Unknown },
        comment_count,
        like_count: 0,
        view_count: 0,
        kind: DocumentKind::Text,
        is_recommend: false,
        created_at: 0,
    }
}

fn comment(id: usize) -> Comment {
    Comment {
        id,
        author: User { id: None, ip: None, nickname: "n".to_string(), kind: UserKind::Unknown },
        depth: 0,
        contents: "c".to_string(),
        kind: CommentKind::Text,
        parent_id: None,
        created_at: None,
    }
}

#[test]
fn jsonp_trimming() {
    assert_eq!(strip_jsonp("cb_abc(  {\"a\":1}  );", "cb_abc"), Some("{\"a\":1}".to_string()));
    assert_eq!(strip_jsonp("  cb([1,2])\n", "cb"), Some("[1,2]".to_string()));
    assert_eq!(strip_jsonp("other([1])", "cb"), None);
    assert_eq!(strip_jsonp("cb([1]", "cb"), None);
}

#[test]
fn rank_feed_kind() {
    let gs = with_kind(vec![gallery(GalleryKind::Major)], GalleryKind::Minor);
    assert_eq!(gs[0].kind, GalleryKind::Minor);
    assert_eq!(gs[0].id, "programming");
}

#[test]
fn urls_by_kind() {
    assert_eq!(
        listing_url(&gallery(GalleryKind::Major), 2).unwrap(),
        "https://gall.dcinside.com/board/lists?id=programming&list_num=100&page=2"
    );
    assert_eq!(
        listing_url(&gallery(GalleryKind::Minor), 1000).unwrap(),
        "https://gall.dcinside.com/mgallery/board/lists?id=programming&list_num=100&page=1000"
    );
    assert_eq!(listing_url(&gallery(GalleryKind::Mini), 1), Err(CrawlerError::UnsupportedGalleryKind));
    assert_eq!(
        comment_referer("programming", 1595404),
        "https://gall.dcinside.com/board/view/?id=programming&no=1595404&_rk=tDl&page=1"
    );
}

#[test]
fn comment_form() {
    let token = Some("tok".to_string());
    let f = comment_request(&gallery(GalleryKind::Minor), 7, 1, &token).unwrap();
    assert_eq!(f.gall_type, "M");
    assert_eq!(f.sort, "");
    assert_eq!(f.no, 7);
    assert_eq!(f.cmt_id, "programming");
    assert_eq!(f.e_s_n_o, token);
    let f = comment_request(&gallery(GalleryKind::Major), 7, 2, &None).unwrap();
    assert_eq!(f.gall_type, "G");
    assert_eq!(f.sort, "D");
    assert!(comment_request(&gallery(GalleryKind::Mini), 7, 2, &None).is_err());
}

#[test]
fn listing_paging() {
    let mut walk = ListingWalk::new(2, 60);
    assert!(!walk.done);
    walk.feed(vec![Ok(doc(90, 0)), Ok(doc(80, 0)), Err(DocumentParseError::Select(ListingField::Title))]);
    assert!(!walk.done);
    assert_eq!(walk.next_page, 3);
    // the smallest id gathered, not the last row, decides
    walk.feed(vec![Ok(doc(50, 0)), Ok(doc(70, 0))]);
    assert!(walk.done);
    let kept = walk.finish();
    let ids: Vec<Option<usize>> = kept.iter().map(|r| r.as_ref().ok().map(|d| d.id)).collect();
    assert_eq!(ids, vec![Some(90), Some(80), None, Some(70)]);
}

#[test]
fn listing_stops_on_unreadable_page_and_cap() {
    let mut walk = ListingWalk::new(2, 0);
    walk.feed(vec![Err(DocumentParseError::Select(ListingField::Title))]);
    assert!(walk.done);
    assert!(walk.finish().is_empty());
    let mut walk = ListingWalk::new(2, 0);
    walk.feed(vec![]);
    assert!(walk.done);
    let mut walk = ListingWalk::new(999, 0);
    walk.feed(vec![Ok(doc(5, 0))]);
    assert!(walk.done);
    assert!(ListingWalk::new(1000, 0).done);
    let kept = rows_after(vec![Ok(doc(30, 0)), Ok(doc(20, 0))], 25);
    assert_eq!(kept.len(), 1);
}

#[test]
fn comment_paging() {
    let mut acc = Vec::new();
    push_page_reversed(&mut acc, vec![comment(3), comment(2)]);
    push_page_reversed(&mut acc, vec![comment(1), comment(0)]);
    let ids: Vec<usize> = chronological(acc).iter().map(|c| c.id).collect();
    assert_eq!(ids, vec![1, 0, 3, 2]);
    let mut walk = CommentWalk::new();
    walk.feed(vec![comment(3), comment(2)], 2);
    assert!(!walk.done);
    assert_eq!(walk.next_page, 2);
    walk.feed(vec![comment(1), comment(0)], 2);
    assert!(walk.done);
    let ids: Vec<usize> = walk.finish().iter().map(|c| c.id).collect();
    assert_eq!(ids, vec![1, 0, 3, 2]);
    let mut empty = CommentWalk::new();
    empty.feed(vec![], 5);
    assert!(empty.done);
    assert!(empty.finish().is_empty());
}

#[test]
fn documents_from_rows() {
    assert!(wants_comments(&doc(1, 2)));
    assert!(!wants_comments(&doc(1, 0)));
    let g = gallery(GalleryKind::Major);
    let d = assemble_document(&g, doc(5, 1), Some(Ok(vec![comment(9)]))).unwrap();
    assert_eq!(d.id, 5);
    assert_eq!(d.gallery.name, "프로그래밍");
    assert_eq!(d.comments.as_ref().unwrap().len(), 1);
    assert_eq!(d.body, None);
    assert_eq!(d, Document::from_indexes(g.clone(), doc(5, 1), Some(vec![comment(9)]), None));
    assert_eq!(d.title, "t");
    assert_eq!(d.gallery.kind, GalleryKind::Major);
    let e = assemble_document(&g, doc(5, 1), Some(Err(CrawlerError::CommentParseError(CommentParseError::JsonParse))));
    assert_eq!(e, Err(CrawlerError::CommentParseError(CommentParseError::JsonParse)));
    let d = assemble_document(&g, doc(6, 0), None).unwrap();
    assert_eq!(d.comments, None);
}

#[test]
fn error_classification() {
    assert_eq!(CrawlerErrorReport::from_error(&CrawlerError::PageNotFound), CrawlerErrorReport::PageNotFound);
    assert_eq!(
        CrawlerErrorReport::from_error(&CrawlerError::DocumentParseError(DocumentParseError::AdultPage)),
        CrawlerErrorReport::AdultPage
    );
    assert_eq!(CrawlerErrorReport::from_error(&CrawlerError::Transport), CrawlerErrorReport::Unknown);
    assert!(CrawlerError::DocumentParseError(DocumentParseError::MinorGalleryPromoted).is_terminal());
    assert!(!CrawlerError::Transport.is_terminal());
}

#[test]
fn backoff_grows_linearly_within_budget() {
    let mut b = BackOff::new(1000, 2500);
    assert_eq!(b.on_failure(false), BackOffStep::Retry(1000));
    assert_eq!(b.on_failure(false), BackOffStep::Retry(1500));
    assert_eq!(b.on_failure(false), BackOffStep::GiveUp);
    let mut t = BackOff::new(1000, 60000);
    assert_eq!(t.on_failure(true), BackOffStep::GiveUp);
    assert_eq!(t.waited, 0);
}
