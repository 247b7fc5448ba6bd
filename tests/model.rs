use dcinside_crawler::directory::{Directory, DirectoryConfig, LiveDirectoryError};
use dcinside_crawler::model::{
    CommentKind, Document, DocumentIndex, DocumentKind, Gallery, GalleryIndex, GalleryKind, User,
    UserKind,
};

#[test]
fn kind_names() {
    assert_eq!(GalleryKind::Major.name(), "major");
    assert_eq!(GalleryKind::Minor.name(), "minor");
    assert_eq!(GalleryKind::Mini.name(), "mini");
    assert_eq!(DocumentKind::Video.name(), "video");
    assert_eq!(UserKind::Dynamic.name(), "dynamic");
    assert_eq!(CommentKind::Voice.name(), "voice");
    assert_eq!(GalleryKind::from_name("minor"), Some(GalleryKind::Minor));
    assert_eq!(GalleryKind::from_name("Major"), None);
    assert_eq!(GalleryKind::default_kind(), GalleryKind::Major);
}

#[test]
fn user_kinds() {
    let s = |v: &str| Some(v.to_string());
    assert_eq!(UserKind::parse(&s("id"), &None), UserKind::Static);
    assert_eq!(UserKind::parse(&s("id"), &s("1.2")), UserKind::Static);
    assert_eq!(UserKind::parse(&s(""), &s("1.2")), UserKind::Dynamic);
    assert_eq!(UserKind::parse(&None, &s("1.2")), UserKind::Dynamic);
    assert_eq!(UserKind::parse(&s(""), &s("")), UserKind::Unknown);
    assert_eq!(UserKind::parse(&None, &None), UserKind::Unknown);
    let u = User::from_fields(s(""), s("1.2"), "nick".to_string());
    assert_eq!(u.id, None);
    assert_eq!(u.ip, s("1.2"));
}

#[test]
fn document_kind_from_icons() {
    assert_eq!(DocumentKind::from_icons(true, true), DocumentKind::Video);
    assert_eq!(DocumentKind::from_icons(false, true), DocumentKind::Picture);
    assert_eq!(DocumentKind::from_icons(false, false), DocumentKind::Text);
}

#[test]
fn document_from_indexes() {
    let g = GalleryIndex { id: "g".to_string(), name: "갤".to_string(), kind: GalleryKind::Minor, rank: Some(1) };
    let i = DocumentIndex {
        gallery_id: "g".to_string(),
        id: 9,
        title: "t".to_string(),
        subject: Some("s".to_string()),
        author: User { id: None, ip: None, nickname: "n".to_string(), kind: UserKind::Unknown },
        comment_count: 1,
        like_count: 2,
        view_count: 3,
        kind: DocumentKind::Text,
        is_recommend: true,
        created_at: 77,
    };
    let d = Document::from_indexes(g, i, None, Some("b".to_string()));
    assert_eq!(d.gallery, Gallery { id: "g".to_string(), name: "갤".to_string(), kind: GalleryKind::Minor });
    assert_eq!(d.id, 9);
    assert_eq!(d.view_count, 3);
    assert_eq!(d.created_at, 77);
    assert_eq!(d.body, Some("b".to_string()));
}

#[test]
fn restore_caps_estimate_and_refuses_duplicates() {
    let mut d = Directory::new(DirectoryConfig::new());
    let mut g = dcinside_crawler::directory::fresh(
        GalleryIndex { id: "g".to_string(), name: "g".to_string(), kind: GalleryKind::Major, rank: None },
        3,
    );
    g.publish_duration_millis = Some(i64::MAX);
    assert!(d.restore(g.clone()));
    assert_eq!(d.get("g").unwrap().publish_duration_millis, Some(86_400_000));
    assert!(!d.restore(g));
    assert_eq!(d.len(), 1);
    assert_eq!(LiveDirectoryError::NotFound.status_code(), 404);
}
