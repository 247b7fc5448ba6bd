use dcinside_crawler::error::{DocumentParseError, ListingField};
use dcinside_crawler::listing::{
    classify_listing, comment_count, document_index_from_row, listing_token, parse_document_indexes,
    ListingPage, RawRow, RawWriter,
};
use dcinside_crawler::html::{listing_page, pagination_texts, parse_document_body};
use dcinside_crawler::error::DocumentBodyParseError;
use dcinside_crawler::model::{DocumentKind, UserKind};

fn empty_page() -> ListingPage {
    ListingPage { state_class: None, token: None, rows: Vec::new() }
}

fn row(num: &str) -> RawRow {
    RawRow {
        num: Some(num.to_string()),
        title: Some("title".to_string()),
        subject: Some("일반".to_string()),
        writer: Some(RawWriter { nick: Some("ㅇㅇ".to_string()), ip: Some("1.2".to_string()), uid: Some("".to_string()) }),
        reply: Some(" [12] ".to_string()),
        recommend: Some("3".to_string()),
        count: Some("45".to_string()),
        has_picture: true,
        has_video: false,
        is_recommend: false,
        date: Some(Some(" 2021-01-10 17:20:43 ".to_string())),
    }
}

#[test]
fn it_parses_adults() {
    let html = r#"<script type="text/javascript">location.replace("/error/adult/?s_url=https%3A%2F%2Fgall.dcinside.com%2Fmgallery%2Fboard%2Flists%3Fid%3Donahole%26list_num%3D100%26page%3D2");</script>"#;
    let res = parse_document_indexes(html, empty_page(), "gallery_id");
    assert!(matches!(res, Err(DocumentParseError::AdultPage)));
}

#[test]
fn it_parses_promoted() {
    let res = parse_document_indexes(
        r#"<script type="text/javascript">location.replace("https://gall.dcinside.com/board/lists?id=wln");</script>"#,
        empty_page(),
        "gallery_id",
    );
    assert!(matches!(res, Err(DocumentParseError::MinorGalleryPromoted)));
}

#[test]
fn it_pareses_closed() {
    let res = parse_document_indexes(
        r#"<script type="text/javascript">alert("해당 마이너 갤러리는 매니저의 요청으로 폐쇄되었습니다.\n마이너 갤러리 메인으로 돌아갑니다.");</script><script type="text/javascript">location.replace("https://gall.dcinside.com/m");</script>"#,
        empty_page(),
        "gallery_id",
    );
    assert!(matches!(res, Err(DocumentParseError::MinorGalleryClosed)));
}

#[test]
fn it_pareses_closed2() {
    let res = parse_document_indexes(
        r#"<script type="text/javascript">alert("해당 마이너 갤러리는 운영원칙 위반(사유: )으로 폐쇄되었습니다.\n마이너 갤러리 메인으로 돌아갑니다.");</script><script type="text/javascript">location.replace("https://gall.dcinside.com/m");</script>"#,
        empty_page(),
        "gallery_id",
    );
    assert!(matches!(res, Err(DocumentParseError::MinorGalleryClosed)));
}

#[test]
fn policy_restriction_and_marker() {
    let res = classify_listing(r#"<script type="text/javascript">alert("해당 마이너 갤러리는 운영원칙 위반으로 접근이 제한되었습니다.");</script>"#, &None);
    assert_eq!(res, Some(DocumentParseError::MinorGalleryAccessNotAllowed));
    let res = classify_listing("<html></html>", &Some("migall_state restriction".to_string()));
    assert_eq!(res, Some(DocumentParseError::MinorGalleryAccessNotAllowed));
    assert_eq!(classify_listing("<html></html>", &Some("migall_state".to_string())), None);
    assert_eq!(classify_listing("", &None), None);
}

#[test]
fn rows_are_read_one_by_one() {
    let mut bad = row("12a");
    bad.title = None;
    let page = ListingPage { state_class: None, token: Some(Some("tok".to_string())), rows: vec![row("123"), bad] };
    let res = parse_document_indexes("<html></html>", page, "programming").unwrap();
    assert_eq!(res.len(), 2);
    let d = res[0].as_ref().unwrap();
    assert_eq!(d.id, 123);
    assert_eq!(d.gallery_id, "programming");
    assert_eq!(d.comment_count, 12);
    assert_eq!(d.like_count, 3);
    assert_eq!(d.view_count, 45);
    assert_eq!(d.kind, DocumentKind::Picture);
    assert_eq!(d.author.kind, UserKind::Dynamic);
    assert_eq!(d.author.id, None);
    assert_eq!(d.created_at, 1610266843);
    assert_eq!(res[1], Err(DocumentParseError::NumberParse(ListingField::Number)));
}

#[test]
fn row_errors_in_field_order() {
    let mut r = row("1");
    r.writer = None;
    assert_eq!(document_index_from_row(r, "g"), Err(DocumentParseError::Select(ListingField::Writer)));
    let mut r = row("1");
    r.count = Some("many".to_string());
    assert_eq!(document_index_from_row(r, "g"), Err(DocumentParseError::NumberParse(ListingField::Count)));
    let mut r = row("1");
    r.date = Some(None);
    assert_eq!(document_index_from_row(r, "g"), Err(DocumentParseError::Select(ListingField::DateTitle)));
    let mut r = row("1");
    r.date = Some(Some("yesterday".to_string()));
    assert_eq!(document_index_from_row(r, "g"), Err(DocumentParseError::DatetimeParse(ListingField::DateTitle)));
    let mut r = row("1");
    r.has_video = true;
    r.reply = None;
    let d = document_index_from_row(r, "g").unwrap();
    assert_eq!(d.kind, DocumentKind::Video);
    assert_eq!(d.comment_count, 0);
}

#[test]
fn comment_counts() {
    assert_eq!(comment_count(&Some("[3/1]".to_string())), 0);
    assert_eq!(comment_count(&Some("[[7]]".to_string())), 7);
    assert_eq!(comment_count(&None), 0);
}

#[test]
fn token_is_required() {
    assert_eq!(listing_token(&empty_page()), Err(DocumentParseError::Select(ListingField::Token)));
    let page = ListingPage { state_class: None, token: Some(Some("abc".to_string())), rows: Vec::new() };
    assert_eq!(listing_token(&page), Ok("abc".to_string()));
}

const LISTING_HTML: &str = r#"<html><body><div class="migall_state"></div><input type="hidden" id="e_s_n_o" value="3eabc"><table><tbody>
<tr class="ub-content us-post"><td class="gall_num">123</td><td class="gall_tit ub-word"><a href="/board/view/?id=g&no=123"><em class="icon_img icon_pic"></em>제목</a><a class="reply_numbox"><span class="reply_num">[12]</span></a></td><td class="gall_writer ub-writer" data-nick="ㅇㅇ" data-uid="" data-ip="1.2"><span class="nickname">ㅇㅇ</span></td><td class="gall_date" title="2021-01-10 17:20:43">17:20</td><td class="gall_count">45</td><td class="gall_recommend">3</td></tr>
<tr class="ub-content us-post"><td class="gall_num">notice</td></tr>
</tbody></table></body></html>"#;

#[test]
fn listing_html_is_read() {
    let page = listing_page(LISTING_HTML);
    assert_eq!(page.token, Some(Some("3eabc".to_string())));
    assert_eq!(page.state_class, Some("migall_state".to_string()));
    assert_eq!(page.rows.len(), 2);
    let res = parse_document_indexes(LISTING_HTML, page, "g").unwrap();
    let d = res[0].as_ref().unwrap();
    assert_eq!(d.id, 123);
    assert_eq!(d.title, "제목");
    assert_eq!(d.comment_count, 12);
    assert_eq!(d.kind, DocumentKind::Picture);
    assert_eq!(d.author.nickname, "ㅇㅇ");
    assert_eq!(d.author.ip, Some("1.2".to_string()));
    assert_eq!(d.created_at, 1610266843);
    assert_eq!(res[1], Err(DocumentParseError::NumberParse(ListingField::Number)));
}

#[test]
fn pagination_and_body() {
    let texts = pagination_texts("<em>1</em><a href='#'>2</a><a href='#'>10</a><a>next</a>");
    assert_eq!(texts, vec!["1".to_string(), "2".to_string(), "10".to_string(), "next".to_string()]);
    assert_eq!(parse_document_body("<div class='write_div'><p>hi</p></div>", "g", 1), Ok("<p>hi</p>".to_string()));
    assert_eq!(parse_document_body("<div></div>", "g", 1), Err(DocumentBodyParseError::Select(ListingField::Body)));
}
