//! Reading listing and pagination HTML into the plain fields the parsers
//! work on. What select finds in a page is named by the functions below,
//! each a function of the page's text and the selector alone.

use vstd::prelude::*;
use select::document::Document as HtmlDocument;
use select::predicate::{Attr, Class, Descendant, Name, Or};
use crate::listing::{ListingPage, RawRow, RawWriter};
use crate::error::{DocumentBodyParseError, ListingField};
use crate::model::opt_view;

verus! {

/// How many elements of `html` carry class `row`.
pub uninterp spec fn row_count_of(html: Seq<char>, row: Seq<char>) -> nat;

/// For each element carrying class `row`, in document order: the text of
/// the first element below it carrying class `field`.
pub uninterp spec fn row_texts_of(html: Seq<char>, row: Seq<char>, field: Seq<char>) -> Seq<Option<Seq<char>>>;

/// For each element carrying class `row`: the text of the first `a` element
/// inside an element carrying class `field`, below it.
pub uninterp spec fn row_link_texts_of(html: Seq<char>, row: Seq<char>, field: Seq<char>) -> Seq<Option<Seq<char>>>;

/// For each element carrying class `row`: attribute `attr` of the first
/// element below it carrying class `field`, inside `Some` when there is
/// such an element.
pub uninterp spec fn row_attrs_of(
    html: Seq<char>,
    row: Seq<char>,
    field: Seq<char>,
    attr: Seq<char>,
) -> Seq<Option<Option<Seq<char>>>>;

/// For each element carrying class `row`: whether an element carrying class
/// `field` lies below it.
pub uninterp spec fn row_has_of(html: Seq<char>, row: Seq<char>, field: Seq<char>) -> Seq<bool>;

/// Attribute `attr` of the first element of `html` carrying class `class`.
pub uninterp spec fn class_attr_of(html: Seq<char>, class: Seq<char>, attr: Seq<char>) -> Option<Seq<char>>;

/// Attribute `attr` of the first element of `html` whose id is `id`, inside
/// `Some` when there is one.
pub uninterp spec fn id_attr_of(html: Seq<char>, id: Seq<char>, attr: Seq<char>) -> Option<Option<Seq<char>>>;

/// The texts of the `em` and `a` elements of `html`, in document order.
pub uninterp spec fn em_and_link_texts_of(html: Seq<char>) -> Seq<Seq<char>>;

/// The inner HTML of the first element of `html` carrying class `class`.
pub uninterp spec fn inner_html_of_class(html: Seq<char>, class: Seq<char>) -> Option<Seq<char>>;

pub open spec fn opt2_view(o: Option<Option<String>>) -> Option<Option<Seq<char>>> {
    match o {
        Some(x) => Some(opt_view(x)),
        None => None,
    }
}

pub open spec fn opt_views(v: Seq<Option<String>>) -> Seq<Option<Seq<char>>> {
    v.map_values(|o: Option<String>| opt_view(o))
}

pub open spec fn opt2_views(v: Seq<Option<Option<String>>>) -> Seq<Option<Option<Seq<char>>>> {
    v.map_values(|o: Option<Option<String>>| opt2_view(o))
}

/// Relies on select's `Document::from(&str)`, `Document::find` with `Class`
/// and `Iterator::count`.
#[verifier::external_body]
fn row_count(html: &str, row: &str) -> (r: usize)
    ensures
        r as nat == row_count_of(html@, row@),
{
    HtmlDocument::from(html).find(Class(row)).count()
}

/// Relies on select's `Document::from`, `find` with `Class` and
/// `Node::text`.
#[verifier::external_body]
fn row_texts(html: &str, row: &str, field: &str) -> (r: Vec<Option<String>>)
    ensures
        opt_views(r@) == row_texts_of(html@, row@, field@),
{
    let doc = HtmlDocument::from(html);
    let texts = doc.find(Class(row)).map(|n| n.find(Class(field)).next().map(|f| f.text())).collect();
    texts
}

/// Relies on select's `Document::from`, `find` with `Class` and
/// `Descendant(Class, Name("a"))`, and `Node::text`.
#[verifier::external_body]
fn row_link_texts(html: &str, row: &str, field: &str) -> (r: Vec<Option<String>>)
    ensures
        opt_views(r@) == row_link_texts_of(html@, row@, field@),
{
    let doc = HtmlDocument::from(html);
    let texts = doc.find(Class(row)).map(|n| n.find(Descendant(Class(field), Name("a"))).next().map(|f| f.text())).collect();
    texts
}

/// Relies on select's `Document::from`, `find` with `Class` and
/// `Node::attr`.
#[verifier::external_body]
fn row_attrs(html: &str, row: &str, field: &str, attr: &str) -> (r: Vec<Option<Option<String>>>)
    ensures
        opt2_views(r@) == row_attrs_of(html@, row@, field@, attr@),
{
    let doc = HtmlDocument::from(html);
    let attrs = doc.find(Class(row)).map(|n| n.find(Class(field)).next().map(|f| f.attr(attr).map(|a| a.to_string()))).collect();
    attrs
}

/// Relies on select's `Document::from` and `find` with `Class`.
#[verifier::external_body]
fn row_has(html: &str, row: &str, field: &str) -> (r: Vec<bool>)
    ensures
        r@ == row_has_of(html@, row@, field@),
{
    let doc = HtmlDocument::from(html);
    let found = doc.find(Class(row)).map(|n| n.find(Class(field)).next().is_some()).collect();
    found
}

/// Relies on select's `Document::from`, `find` with `Class` and
/// `Node::attr`.
#[verifier::external_body]
fn class_attr(html: &str, class: &str, attr: &str) -> (r: Option<String>)
    ensures
        opt_view(r) == class_attr_of(html@, class@, attr@),
{
    let doc = HtmlDocument::from(html);
    let found = doc.find(Class(class)).next().and_then(|n| n.attr(attr).map(|a| a.to_string()));
    found
}

/// Relies on select's `Document::from`, `find` with `Attr("id", ..)` and
/// `Node::attr`.
#[verifier::external_body]
fn id_attr(html: &str, id: &str, attr: &str) -> (r: Option<Option<String>>)
    ensures
        opt2_view(r) == id_attr_of(html@, id@, attr@),
{
    let doc = HtmlDocument::from(html);
    let found = doc.find(Attr("id", id)).next().map(|n| n.attr(attr).map(|a| a.to_string()));
    found
}

/// Relies on select's `Document::from`, `find` with `Or(Name, Name)` and
/// `Node::text`.
#[verifier::external_body]
fn em_and_link_texts(html: &str) -> (r: Vec<String>)
    ensures
        r@.map_values(|s: String| s@) == em_and_link_texts_of(html@),
{
    let doc = HtmlDocument::from(html);
    let texts = doc.find(Or(Name("em"), Name("a"))).map(|n| n.text()).collect();
    texts
}

/// Relies on select's `Document::from`, `find` with `Class` and
/// `Node::inner_html`.
#[verifier::external_body]
fn inner_html(html: &str, class: &str) -> (r: Option<String>)
    ensures
        opt_view(r) == inner_html_of_class(html@, class@),
{
    let doc = HtmlDocument::from(html);
    let found = doc.find(Class(class)).next().map(|n| n.inner_html());
    found
}

/// The `i`-th cell of a column, `None` past its end.
pub open spec fn cell<T>(col: Seq<Option<T>>, i: int) -> Option<T> {
    if 0 <= i < col.len() {
        col[i]
    } else {
        None
    }
}

pub open spec fn flag(col: Seq<bool>, i: int) -> bool {
    0 <= i < col.len() && col[i]
}

pub open spec fn flatten<T>(o: Option<Option<T>>) -> Option<T> {
    match o {
        Some(x) => x,
        None => None,
    }
}

pub const ROW_CLASS: &'static str = "us-post";

/// Row `i` of a listing page, as select finds it in `html`.
pub open spec fn row_read(row: RawRow, html: Seq<char>, i: int) -> bool {
    let r = ROW_CLASS@;
    let nick = cell(row_attrs_of(html, r, "gall_writer"@, "data-nick"@), i);
    &&& opt_view(row.num) == cell(row_texts_of(html, r, "gall_num"@), i)
    &&& opt_view(row.title) == cell(row_link_texts_of(html, r, "gall_tit"@), i)
    &&& opt_view(row.subject) == cell(row_texts_of(html, r, "gall_subject"@), i)
    &&& (row.writer is Some <==> nick is Some)
    &&& (row.writer is Some ==> {
        let w = row.writer->0;
        &&& opt_view(w.nick) == nick->0
        &&& opt_view(w.ip) == flatten(cell(row_attrs_of(html, r, "gall_writer"@, "data-ip"@), i))
        &&& opt_view(w.uid) == flatten(cell(row_attrs_of(html, r, "gall_writer"@, "data-uid"@), i))
    })
    &&& opt_view(row.reply) == cell(row_texts_of(html, r, "reply_numbox"@), i)
    &&& opt_view(row.recommend) == cell(row_texts_of(html, r, "gall_recommend"@), i)
    &&& opt_view(row.count) == cell(row_texts_of(html, r, "gall_count"@), i)
    &&& row.has_picture == flag(row_has_of(html, r, "icon_pic"@), i)
    &&& row.has_video == flag(row_has_of(html, r, "icon_movie"@), i)
    &&& row.is_recommend == flag(row_has_of(html, r, "icon_recom"@), i)
    &&& opt2_view(row.date) == cell(row_attrs_of(html, r, "gall_date"@, "title"@), i)
}

fn text_cell(col: &Vec<Option<String>>, i: usize) -> (r: Option<String>)
    ensures
        opt_view(r) == cell(opt_views(col@), i as int),
{
    if i < col.len() {
        match &col[i] {
            Some(t) => Some(t.clone()),
            None => None,
        }
    } else {
        None
    }
}

fn attr_cell(col: &Vec<Option<Option<String>>>, i: usize) -> (r: Option<Option<String>>)
    ensures
        opt2_view(r) == cell(opt2_views(col@), i as int),
{
    if i < col.len() {
        match &col[i] {
            Some(Some(t)) => Some(Some(t.clone())),
            Some(None) => Some(None),
            None => None,
        }
    } else {
        None
    }
}

fn flag_cell(col: &Vec<bool>, i: usize) -> (r: bool)
    ensures
        r == flag(col@, i as int),
{
    i < col.len() && col[i]
}

/// What the listing parser needs from a listing page's HTML: the class of
/// the first `.migall_state` element, the `#e_s_n_o` token and every
/// `.us-post` row, in document order.
pub fn listing_page(body: &str) -> (r: ListingPage)
    ensures
        r.rows@.len() == row_count_of(body@, ROW_CLASS@),
        opt_view(r.state_class) == class_attr_of(body@, "migall_state"@, "class"@),
        opt2_view(r.token) == id_attr_of(body@, "e_s_n_o"@, "value"@),
        forall|i: int| 0 <= i < r.rows@.len() ==> row_read(#[trigger] r.rows@[i], body@, i),
{
    let n = row_count(body, ROW_CLASS);
    let num = row_texts(body, ROW_CLASS, "gall_num");
    let title = row_link_texts(body, ROW_CLASS, "gall_tit");
    let subject = row_texts(body, ROW_CLASS, "gall_subject");
    let nick = row_attrs(body, ROW_CLASS, "gall_writer", "data-nick");
    let ip = row_attrs(body, ROW_CLASS, "gall_writer", "data-ip");
    let uid = row_attrs(body, ROW_CLASS, "gall_writer", "data-uid");
    let reply = row_texts(body, ROW_CLASS, "reply_numbox");
    let recommend = row_texts(body, ROW_CLASS, "gall_recommend");
    let count = row_texts(body, ROW_CLASS, "gall_count");
    let pic = row_has(body, ROW_CLASS, "icon_pic");
    let movie = row_has(body, ROW_CLASS, "icon_movie");
    let recom = row_has(body, ROW_CLASS, "icon_recom");
    let date = row_attrs(body, ROW_CLASS, "gall_date", "title");
    let mut rows: Vec<RawRow> = Vec::new();
    let mut i: usize = 0;
    while i < n
        invariant
            i <= n,
            rows@.len() == i,
            opt_views(num@) == row_texts_of(body@, ROW_CLASS@, "gall_num"@),
            opt_views(title@) == row_link_texts_of(body@, ROW_CLASS@, "gall_tit"@),
            opt_views(subject@) == row_texts_of(body@, ROW_CLASS@, "gall_subject"@),
            opt2_views(nick@) == row_attrs_of(body@, ROW_CLASS@, "gall_writer"@, "data-nick"@),
            opt2_views(ip@) == row_attrs_of(body@, ROW_CLASS@, "gall_writer"@, "data-ip"@),
            opt2_views(uid@) == row_attrs_of(body@, ROW_CLASS@, "gall_writer"@, "data-uid"@),
            opt_views(reply@) == row_texts_of(body@, ROW_CLASS@, "reply_numbox"@),
            opt_views(recommend@) == row_texts_of(body@, ROW_CLASS@, "gall_recommend"@),
            opt_views(count@) == row_texts_of(body@, ROW_CLASS@, "gall_count"@),
            pic@ == row_has_of(body@, ROW_CLASS@, "icon_pic"@),
            movie@ == row_has_of(body@, ROW_CLASS@, "icon_movie"@),
            recom@ == row_has_of(body@, ROW_CLASS@, "icon_recom"@),
            opt2_views(date@) == row_attrs_of(body@, ROW_CLASS@, "gall_date"@, "title"@),
            forall|k: int| 0 <= k < i ==> row_read(#[trigger] rows@[k], body@, k),
        decreases n - i,
    {
        let writer = match attr_cell(&nick, i) {
            Some(nk) => Some(
                RawWriter {
                    nick: nk,
                    ip: match attr_cell(&ip, i) {
                        Some(v) => v,
                        None => None,
                    },
                    uid: match attr_cell(&uid, i) {
                        Some(v) => v,
                        None => None,
                    },
                },
            ),
            None => None,
        };
        let row = RawRow {
            num: text_cell(&num, i),
            title: text_cell(&title, i),
            subject: text_cell(&subject, i),
            writer,
            reply: text_cell(&reply, i),
            recommend: text_cell(&recommend, i),
            count: text_cell(&count, i),
            has_picture: flag_cell(&pic, i),
            has_video: flag_cell(&movie, i),
            is_recommend: flag_cell(&recom, i),
            date: attr_cell(&date, i),
        };
        assert(row_read(row, body@, i as int));
        rows.push(row);
        i = i + 1;
    }
    ListingPage {
        state_class: class_attr(body, "migall_state", "class"),
        token: id_attr(body, "e_s_n_o", "value"),
        rows,
    }
}

/// The texts the comment pagination fragment shows in its `em` and `a`
/// elements.
pub fn pagination_texts(fragment: &str) -> (r: Vec<String>)
    ensures
        r@.map_values(|s: String| s@) == em_and_link_texts_of(fragment@),
{
    em_and_link_texts(fragment)
}

/// The body of a post view page: the inner HTML of its `.write_div`.
pub fn parse_document_body(body: &str, _gallery_id: &str, _document_id: usize) -> (r: Result<
    String,
    DocumentBodyParseError,
>)
    ensures
        match inner_html_of_class(body@, "write_div"@) {
            Some(h) => r is Ok && r->Ok_0@ == h,
            None => r == Err::<String, DocumentBodyParseError>(
                DocumentBodyParseError::Select(ListingField::Body),
            ),
        },
{
    match inner_html(body, "write_div") {
        Some(h) => Ok(h),
        None => Err(DocumentBodyParseError::Select(ListingField::Body)),
    }
}

} // verus!
