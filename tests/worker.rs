use dcinside_crawler::directory::fresh;
use dcinside_crawler::error::{CrawlerError, DocumentParseError};
use dcinside_crawler::model::{
    CrawlerErrorReport, Document, DocumentKind, Gallery, GalleryIndex, GalleryKind, GalleryState,
    User, UserKind,
};
use dcinside_crawler::worker::{crawl_plan, error_report, order_by_staleness, success_report};

fn state(id: &str, at: Option<i64>) -> GalleryState {
    let mut s = fresh(GalleryIndex { id: id.to_string(), name: id.to_string(), kind: GalleryKind::Major, rank: None }, 0);
    s.last_crawled_at = at;
    s
}

fn document(id: usize) -> Document {
    Document {
        gallery: Gallery { id: "g".to_string(), name: "g".to_string(), kind: GalleryKind::Major },
        gallery_id: "g".to_string(),
        id,
        title: "t".to_string(),
        subject: None,
        author: User { id: None, ip: None, nickname: "n".to_string(), kind: UserKind::Unknown },
        comment_count: 0,
        like_count: 0,
        view_count: 0,
        kind: DocumentKind::Text,
        is_recommend: false,
        created_at: 0,
        comments: None,
        body: None,
    }
}

#[test]
fn stalest_first() {
    let ordered = order_by_staleness(vec![
        state("c", Some(30)),
        state("a", None),
        state("d", Some(10)),
        state("b", None),
        state("e", Some(10)),
    ]);
    let ids: Vec<&str> = ordered.iter().map(|s| s.index.id.as_str()).collect();
    assert_eq!(ids, vec!["a", "b", "d", "e", "c"]);
}

#[test]
fn plan_resumes_after_last_post() {
    let mut s = state("a", None);
    assert_eq!(crawl_plan(&s), None);
    s.last_crawled_document_id = Some(0);
    assert_eq!(crawl_plan(&s), None);
    s.last_crawled_document_id = Some(77);
    assert_eq!(crawl_plan(&s), Some(77));
}

#[test]
fn success_report_tracks_highest_post() {
    let docs = vec![Ok(document(5)), Err(CrawlerError::Transport), Ok(document(9)), Ok(document(7))];
    let r = success_report(3, "g", 100, Some(6), &docs);
    assert_eq!(r.worker_part, 3);
    assert_eq!(r.id, "g");
    assert_eq!(r.last_crawled_at, Some(100));
    assert_eq!(r.crawled_document_count, 4);
    assert_eq!(r.last_crawled_document_id, Some(9));
    let r = success_report(3, "g", 100, Some(60), &docs);
    assert_eq!(r.last_crawled_document_id, Some(60));
    let r = success_report(3, "g", 100, None, &Vec::new());
    assert_eq!(r.last_crawled_document_id, None);
    assert_eq!(r.crawled_document_count, 0);
}

#[test]
fn error_report_classifies() {
    let r = error_report(1, "g", 5, &CrawlerError::DocumentParseError(DocumentParseError::MinorGalleryClosed));
    assert_eq!(r.error, CrawlerErrorReport::MinorGalleryClosed);
    assert_eq!(r.last_crawled_at, Some(5));
}
