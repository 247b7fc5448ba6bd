use dcinside_crawler::directory::{
    default_as_true, hash, Directory, DirectoryConfig, LiveDirectoryError,
};
use dcinside_crawler::model::{
    CrawlerErrorReport, GalleryCrawlErrorReportForm, GalleryCrawlReportForm, GalleryIndex,
    GalleryKind,
};

fn index(id: &str) -> GalleryIndex {
    GalleryIndex { id: id.to_string(), name: format!("{} gallery", id), kind: GalleryKind::Major, rank: None }
}

fn success(id: &str, at: i64, last_id: Option<usize>, count: usize) -> GalleryCrawlReportForm {
    GalleryCrawlReportForm {
        worker_part: 0,
        id: id.to_string(),
        last_crawled_at: Some(at),
        last_crawled_document_id: last_id,
        crawled_document_count: count,
    }
}

fn failure(id: &str, at: i64, error: CrawlerErrorReport) -> GalleryCrawlErrorReportForm {
    GalleryCrawlErrorReportForm { worker_part: 0, id: id.to_string(), last_crawled_at: Some(at), error }
}

#[test]
fn rank_sighting_makes_gallery_eligible() {
    let mut d = Directory::new(DirectoryConfig::new());
    d.sight_hot(index("g1"), 1000);
    let listed = d.list_part(1, 0, 1000);
    assert_eq!(listed.len(), 1);
    assert_eq!(listed[0].index.id, "g1");
    assert_eq!(listed[0].last_crawled_at, None);
    assert!(listed[0].visible);
    assert_eq!(listed[0].registered_at, Some(1000));
}

#[test]
fn shards_partition_the_galleries() {
    let mut d = Directory::new(DirectoryConfig::new());
    let hot: Vec<GalleryIndex> = (0..100).map(|i| index(&format!("gallery{}", i))).collect();
    d.update(&hot, &Vec::new(), 0);
    assert_eq!(d.len(), 100);
    let a = d.list_part(2, 0, 0);
    let b = d.list_part(2, 1, 0);
    assert_eq!(a.len() + b.len(), 100);
    for g in &a {
        assert!(b.iter().all(|h| h.index.id != g.index.id));
        assert_eq!(hash(&g.index.id) % 2, 0);
    }
    for g in &b {
        assert_eq!(hash(&g.index.id) % 2, 1);
    }
}

#[test]
fn closed_gallery_hidden_until_ranked_again() {
    let mut d = Directory::new(DirectoryConfig::new());
    d.sight_hot(index("g1"), 0);
    assert_eq!(d.error_report(failure("g1", 10, CrawlerErrorReport::MinorGalleryClosed)), Ok(()));
    assert!(d.list_part(1, 0, 100000).is_empty());
    // a weekly sighting of a known gallery changes nothing
    d.sight_weekly(index("g1"), 20);
    assert!(d.list_part(1, 0, 100000).is_empty());
    // a report does not show it again
    assert_eq!(d.report(success("g1", 30, Some(5), 1)), Ok(()));
    assert!(d.list_part(1, 0, 100000).is_empty());
    d.sight_hot(index("g1"), 40);
    let listed = d.list_part(1, 0, 40);
    assert_eq!(listed.len(), 1);
    assert_eq!(listed[0].last_error, Some(CrawlerErrorReport::MinorGalleryClosed));
}

#[test]
fn unknown_error_keeps_visibility() {
    let mut d = Directory::new(DirectoryConfig::new());
    d.sight_hot(index("g1"), 0);
    assert_eq!(d.error_report(failure("g1", 10, CrawlerErrorReport::Unknown)), Ok(()));
    assert!(d.get("g1").unwrap().visible);
    assert_eq!(d.error_report(failure("g1", 10, CrawlerErrorReport::MinorGalleryAccessNotAllowed)), Ok(()));
    assert!(d.get("g1").unwrap().visible);
    for e in [CrawlerErrorReport::PageNotFound, CrawlerErrorReport::MinorGalleryPromoted, CrawlerErrorReport::AdultPage] {
        let mut d = Directory::new(DirectoryConfig::new());
        d.sight_hot(index("g1"), 0);
        assert_eq!(d.error_report(failure("g1", 10, e)), Ok(()));
        assert!(!d.get("g1").unwrap().visible);
    }
}

#[test]
fn ewma_settles() {
    let cfg = DirectoryConfig::new().pub_dur_estimate_weight1(1000).pub_dur_estimate_weight2(0);
    let mut d = Directory::new(cfg);
    d.sight_hot(index("g1"), 0);
    assert_eq!(d.report(success("g1", 100, Some(1), 1)), Ok(()));
    assert_eq!(d.get("g1").unwrap().publish_duration_millis, Some(10_000));
    assert_eq!(d.report(success("g1", 200, Some(2), 1)), Ok(()));
    assert_eq!(d.get("g1").unwrap().publish_duration_millis, Some(19_000));
}

#[test]
fn ewma_decays_without_documents() {
    let cfg = DirectoryConfig::new().pub_dur_estimate_weight1(1000).pub_dur_estimate_weight2(0);
    let mut d = Directory::new(cfg);
    d.sight_hot(index("g1"), 0);
    assert_eq!(d.report(success("g1", 100, Some(1), 1)), Ok(()));
    assert_eq!(d.report(success("g1", 300, None, 0)), Ok(()));
    let g = d.get("g1").unwrap();
    assert_eq!(g.publish_duration_millis, Some(9_000));
    assert_eq!(g.last_published_at, Some(100));
    assert_eq!(g.last_crawled_at, Some(300));
}

#[test]
fn ewma_stays_within_a_day() {
    let cfg = DirectoryConfig::new().pub_dur_estimate_weight1(0).pub_dur_estimate_weight2(10000);
    let mut d = Directory::new(cfg);
    d.sight_hot(index("g1"), 0);
    assert_eq!(d.report(success("g1", 1_000_000_000, Some(1), 1)), Ok(()));
    assert_eq!(d.get("g1").unwrap().publish_duration_millis, Some(86_400_000));
    let cfg = DirectoryConfig::new();
    let mut d = Directory::new(cfg);
    d.sight_hot(index("g2"), 0);
    assert_eq!(d.report(success("g2", 1_000_000, Some(1), 1)), Ok(()));
    // 0.0999 * 3600 s + 0.0001 * 86400 s
    assert_eq!(d.get("g2").unwrap().publish_duration_millis, Some(368_280));
}

#[test]
fn wait_filter() {
    let cfg = DirectoryConfig::new().docs_per_crawl(10).min_wait_seconds(10800);
    let mut d = Directory::new(cfg);
    d.sight_hot(index("g1"), 0);
    let mut g = d.get("g1").unwrap();
    g.publish_duration_millis = Some(60_000);
    g.last_published_at = Some(1000);
    assert!(!cfg.is_eligible(&g, 1500));
    assert!(cfg.is_eligible(&g, 1700));
    assert!(cfg.is_eligible(&g, 1600));
    g.publish_duration_millis = Some(86_400_000);
    assert!(!cfg.is_eligible(&g, 1000 + 10799));
    assert!(cfg.is_eligible(&g, 1000 + 10800));
    g.last_published_at = None;
    g.registered_at = None;
    assert!(cfg.is_eligible(&g, 0));
}

#[test]
fn report_on_unknown_id_is_not_found() {
    let mut d = Directory::new(DirectoryConfig::new());
    d.sight_hot(index("g1"), 0);
    let before = d.states();
    assert_eq!(d.report(success("nope", 10, Some(3), 1)), Err(LiveDirectoryError::NotFound));
    assert_eq!(d.error_report(failure("nope", 10, CrawlerErrorReport::PageNotFound)), Err(LiveDirectoryError::NotFound));
    assert_eq!(d.states(), before);
}

#[test]
fn replayed_report_keeps_document_id() {
    let mut d = Directory::new(DirectoryConfig::new());
    d.sight_hot(index("g1"), 0);
    assert_eq!(d.report(success("g1", 100, Some(42), 3)), Ok(()));
    let first = d.get("g1").unwrap();
    assert_eq!(d.report(success("g1", 100, Some(42), 3)), Ok(()));
    let second = d.get("g1").unwrap();
    assert_eq!(first.last_crawled_document_id, Some(42));
    assert_eq!(second.last_crawled_document_id, Some(42));
    assert_eq!(second.last_crawled_at, first.last_crawled_at);
    assert_eq!(second.last_published_at, first.last_published_at);
}

#[test]
fn document_id_never_decreases() {
    let mut d = Directory::new(DirectoryConfig::new());
    d.sight_hot(index("g1"), 0);
    assert_eq!(d.report(success("g1", 100, Some(42), 3)), Ok(()));
    assert_eq!(d.report(success("g1", 200, Some(7), 1)), Ok(()));
    assert_eq!(d.get("g1").unwrap().last_crawled_document_id, Some(42));
    assert_eq!(d.report(success("g1", 300, None, 0)), Ok(()));
    assert_eq!(d.get("g1").unwrap().last_crawled_document_id, Some(42));
    assert_eq!(d.report(success("g1", 400, Some(50), 1)), Ok(()));
    assert_eq!(d.get("g1").unwrap().last_crawled_document_id, Some(50));
}

#[test]
fn hot_sighting_resets_measurement() {
    let mut d = Directory::new(DirectoryConfig::new());
    d.sight_hot(index("g1"), 0);
    assert_eq!(d.report(success("g1", 100, Some(1), 1)), Ok(()));
    d.sight_hot(GalleryIndex { id: "g1".to_string(), name: "renamed".to_string(), kind: GalleryKind::Minor, rank: Some(3) }, 500);
    let g = d.get("g1").unwrap();
    assert_eq!(g.last_published_at, None);
    assert_eq!(g.publish_duration_millis, None);
    assert_eq!(g.last_ranked, 500);
    assert_eq!(g.registered_at, Some(0));
    assert_eq!(g.index.name, "renamed");
    assert_eq!(g.last_crawled_document_id, Some(1));
}

#[test]
fn weekly_sighting_registers_new_galleries_only() {
    let mut d = Directory::new(DirectoryConfig::new());
    d.update(&vec![index("a")], &vec![index("a"), index("b")], 7);
    assert_eq!(d.len(), 2);
    assert_eq!(d.get("b").unwrap().registered_at, Some(7));
    assert_eq!(d.get("a").unwrap().last_ranked, 7);
}

#[test]
fn upgrade_backfills_registration() {
    let mut d = Directory::new(DirectoryConfig::new());
    d.sight_hot(index("a"), 5);
    d.upgrade_db(9);
    assert_eq!(d.get("a").unwrap().registered_at, Some(5));
}

#[test]
fn shard_hash_is_fnv1a() {
    assert_eq!(hash(""), 0xcbf29ce484222325);
    assert_eq!(hash("a"), 0xaf63dc4c8601ec8c);
    assert!(default_as_true());
}

#[test]
fn ewma_takes_negative_intervals() {
    let cfg = DirectoryConfig::new().pub_dur_estimate_weight1(1000).pub_dur_estimate_weight2(0);
    let mut d = Directory::new(cfg);
    d.sight_hot(index("g1"), 100);
    assert_eq!(d.report(success("g1", 0, Some(1), 1)), Ok(()));
    assert_eq!(d.get("g1").unwrap().publish_duration_millis, Some(-10_000));
    // a negative estimate leaves the gallery due at once
    assert_eq!(d.list_part(1, 0, 0).len(), 1);
}

#[test]
fn ewma_rounds_toward_zero() {
    let cfg = DirectoryConfig::new().pub_dur_estimate_weight1(1).pub_dur_estimate_weight2(0);
    let mut d = Directory::new(cfg);
    d.sight_hot(index("g1"), 1);
    assert_eq!(d.report(success("g1", 0, None, 3)), Ok(()));
    // sample -333 ms; 1 * -333 / 10000 rounds to 0
    assert_eq!(d.get("g1").unwrap().publish_duration_millis, Some(0));
}
