use dcinside_crawler::comment::{
    assign_parents, max_page, parse_comments, CommentField, CommentNo, CommentParseError,
    CommentsResponse, RawComment,
};
use dcinside_crawler::model::{Comment, CommentKind, User, UserKind};
use dcinside_crawler::time::{parse_comment_time, parse_dashed_time};

fn comment(id: usize, depth: usize) -> Comment {
    Comment {
        id,
        author: User { id: None, ip: None, nickname: "n".to_string(), kind: UserKind::Unknown },
        depth,
        contents: "c".to_string(),
        kind: CommentKind::Text,
        parent_id: None,
        created_at: None,
    }
}

fn raw(no: CommentNo, depth: usize) -> RawComment {
    RawComment {
        no: Some(no),
        user_id: Some("".to_string()),
        ip: Some("1.2".to_string()),
        name: Some("x".to_string()),
        depth: Some(depth),
        memo: Some("m".to_string()),
        date: None,
    }
}

#[test]
fn threading_skips_deleted_roots() {
    let mut cs = vec![comment(10, 0), comment(11, 1), comment(0, 0), comment(12, 1)];
    assign_parents(&mut cs, None);
    assert_eq!(cs[0].parent_id, None);
    assert_eq!(cs[1].parent_id, Some(10));
    assert_eq!(cs[2].parent_id, None);
    assert_eq!(cs[3].parent_id, Some(10));
}

#[test]
fn threading_continues_from_given_root() {
    let mut cs = vec![comment(11, 1), comment(20, 0), comment(21, 2)];
    assign_parents(&mut cs, Some(5));
    assert_eq!(cs[0].parent_id, Some(5));
    assert_eq!(cs[2].parent_id, Some(20));
    let mut orphan = vec![comment(11, 1)];
    assign_parents(&mut orphan, None);
    assert_eq!(orphan[0].parent_id, None);
}

#[test]
fn comment_deserialization() {
    let r = RawComment {
        no: Some(CommentNo::Text("13369033".to_string())),
        user_id: Some("".to_string()),
        ip: Some("119.195".to_string()),
        name: Some("ㅇㅇ".to_string()),
        depth: Some(0),
        memo: Some("hi".to_string()),
        date: Some("2021-01-10 17:20:43".to_string()),
    };
    let c = Comment::from_raw(r, 2024).unwrap();
    assert_eq!(c.id, 13369033);
    assert_eq!(c.author.id, None);
    assert_eq!(c.author.ip, Some("119.195".to_string()));
    assert_eq!(c.author.nickname, "ㅇㅇ");
    assert_eq!(c.author.kind, UserKind::Dynamic);
    assert_eq!(c.depth, 0);
    assert_eq!(c.contents, "hi");
    assert_eq!(c.kind, CommentKind::Text);
    assert_eq!(c.created_at, Some(1610266843));
    assert_eq!(c.parent_id, None);
}

#[test]
fn static_author_and_dotted_date() {
    let r = RawComment {
        no: Some(CommentNo::Number(4649463)),
        user_id: Some("nasdaqtrader".to_string()),
        ip: Some("".to_string()),
        name: Some("오함마의현인.".to_string()),
        depth: Some(0),
        memo: Some("개추".to_string()),
        date: Some("2020.12.31 16:44:47".to_string()),
    };
    let c = Comment::from_raw(r, 2024).unwrap();
    assert_eq!(c.id, 4649463);
    assert_eq!(c.author.kind, UserKind::Static);
    assert_eq!(c.author.id, Some("nasdaqtrader".to_string()));
    assert_eq!(c.author.ip, None);
    assert_eq!(c.created_at, Some(1609400687));
}

#[test]
fn comment_errors() {
    let mut r = raw(CommentNo::Text("12x".to_string()), 0);
    assert_eq!(Comment::from_raw(r.clone(), 2024), Err(CommentParseError::NumberParse));
    r.no = None;
    assert_eq!(Comment::from_raw(r.clone(), 2024), Err(CommentParseError::MissingField(CommentField::No)));
    let mut r = raw(CommentNo::Number(1), 0);
    r.name = None;
    assert_eq!(Comment::from_raw(r.clone(), 2024), Err(CommentParseError::MissingField(CommentField::Name)));
    let mut r = raw(CommentNo::Number(1), 0);
    r.depth = None;
    assert_eq!(Comment::from_raw(r.clone(), 2024), Err(CommentParseError::MissingField(CommentField::Depth)));
    let mut r = raw(CommentNo::Number(1), 0);
    r.memo = None;
    assert_eq!(Comment::from_raw(r, 2024), Err(CommentParseError::MissingField(CommentField::Memo)));
}

#[test]
fn comment_kinds() {
    assert_eq!(CommentKind::from_contents("<img src=x>"), CommentKind::Con);
    assert_eq!(CommentKind::from_contents("vr/abc"), CommentKind::Voice);
    assert_eq!(CommentKind::from_contents("hello"), CommentKind::Text);
    assert_eq!(CommentKind::from_contents(""), CommentKind::Text);
    assert_eq!(CommentKind::Con.name(), "con");
}

#[test]
fn time_without_year_uses_given_year() {
    assert_eq!(parse_comment_time("01.15 10:00:00", 2024), Some(1705280400));
    assert_eq!(parse_comment_time("garbage", 2024), None);
    assert_eq!(parse_dashed_time("2021-01-10 17:20:43"), Some(1610266843));
}

#[test]
fn pages_and_threading_through_parse() {
    let resp = CommentsResponse {
        comments: Some(vec![raw(CommentNo::Number(10), 0), raw(CommentNo::Text("11".to_string()), 1)]),
        pagination: Some(vec!["1".to_string(), "2".to_string(), "next".to_string(), "10".to_string()]),
    };
    let (cs, last) = parse_comments(resp, None, 2024).unwrap();
    assert_eq!(last, 10);
    assert_eq!(cs.len(), 2);
    assert_eq!(cs[1].parent_id, Some(10));
    let none = CommentsResponse { comments: Some(vec![raw(CommentNo::Number(1), 0)]), pagination: None };
    let (cs, last) = parse_comments(none, None, 2024).unwrap();
    assert!(cs.is_empty());
    assert_eq!(last, 0);
    assert_eq!(max_page(&vec![]), 0);
    assert_eq!(max_page(&vec!["+7".to_string(), "x".to_string()]), 7);
}
