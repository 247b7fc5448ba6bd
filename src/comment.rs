//! Comment records: reading the fields of the comment endpoint's records,
//! threading replies under their root comment, and the page count.

use vstd::prelude::*;
use crate::model::{Comment, CommentKind, User, opt_view, non_empty, user_kind_of, comment_kind_of};
use crate::text::parse_unsigned;
use crate::time::comment_time_of;

verus! {

/// The `no` field, which the endpoint sends as a string or as a number.
#[derive(Debug, PartialEq, Eq, Clone)]
pub enum CommentNo {
    Text(String),
    Number(usize),
}

/// The fields of one comment record as the endpoint sends them; a field the
/// record lacks is `None`. The time comes from `reg_date` or `comment_date`.
#[derive(Debug, PartialEq, Eq, Clone)]
pub struct RawComment {
    pub no: Option<CommentNo>,
    pub user_id: Option<String>,
    pub ip: Option<String>,
    pub name: Option<String>,
    pub depth: Option<usize>,
    pub memo: Option<String>,
    pub date: Option<String>,
}

fn copy_text(s: &Option<String>) -> (r: Option<String>)
    ensures
        r == *s,
{
    match s {
        Some(t) => Some(t.clone()),
        None => None,
    }
}

impl RawComment {
    /// A field-for-field copy.
    pub fn copied(&self) -> (r: RawComment)
        ensures
            r == *self,
    {
        RawComment {
            no: match &self.no {
                Some(CommentNo::Text(t)) => Some(CommentNo::Text(t.clone())),
                Some(CommentNo::Number(n)) => Some(CommentNo::Number(*n)),
                None => None,
            },
            user_id: copy_text(&self.user_id),
            ip: copy_text(&self.ip),
            name: copy_text(&self.name),
            depth: self.depth,
            memo: copy_text(&self.memo),
            date: copy_text(&self.date),
        }
    }
}

/// A field a comment record must have.
#[derive(Debug, PartialEq, Eq, Structural, Clone, Copy)]
pub enum CommentField {
    No,
    Name,
    Depth,
    Memo,
}

/// Why comments could not be read.
#[derive(Debug, PartialEq, Eq, Structural, Clone, Copy)]
pub enum CommentParseError {
    /// A record lacks a required field.
    MissingField(CommentField),
    /// A record's `no` is a string that is not a number.
    NumberParse,
    /// The response is not the expected JSON.
    JsonParse,
}

/// The first thing wrong with a record, in the order the fields are read.
pub open spec fn comment_error(raw: RawComment) -> Option<CommentParseError> {
    match raw.no {
        None => Some(CommentParseError::MissingField(CommentField::No)),
        Some(CommentNo::Text(t)) if parse_unsigned(t@, usize::MAX as nat) is None => Some(
            CommentParseError::NumberParse,
        ),
        _ => if raw.name is None {
            Some(CommentParseError::MissingField(CommentField::Name))
        } else if raw.depth is None {
            Some(CommentParseError::MissingField(CommentField::Depth))
        } else if raw.memo is None {
            Some(CommentParseError::MissingField(CommentField::Memo))
        } else {
            None
        },
    }
}

pub open spec fn comment_id_of(no: CommentNo) -> int {
    match no {
        CommentNo::Text(t) => parse_unsigned(t@, usize::MAX as nat)->0 as int,
        CommentNo::Number(n) => n as int,
    }
}

/// The comment a well-formed record stands for, reading a time without a
/// year in `year`.
pub open spec fn comment_from(c: Comment, raw: RawComment, year: u32) -> bool {
    &&& c.id == comment_id_of(raw.no->0)
    &&& c.author.kind == user_kind_of(opt_view(raw.user_id), opt_view(raw.ip))
    &&& opt_view(c.author.id) == non_empty(opt_view(raw.user_id))
    &&& opt_view(c.author.ip) == non_empty(opt_view(raw.ip))
    &&& c.author.nickname@ == raw.name->0@
    &&& c.depth == raw.depth->0
    &&& c.contents@ == raw.memo->0@
    &&& c.kind == comment_kind_of(raw.memo->0@)
    &&& c.parent_id is None
    &&& c.created_at == match raw.date {
        Some(d) => comment_time_of(d@, year),
        None => None,
    }
}

impl Comment {
    /// The comment a record stands for; a time without a year is read in
    /// `year`.
    pub fn from_raw(raw: RawComment, year: u32) -> (r: Result<Comment, CommentParseError>)
        ensures
            match comment_error(raw) {
                Some(e) => r == Err::<Comment, CommentParseError>(e),
                None => r is Ok && comment_from(r->Ok_0, raw, year),
            },
    {
        let id: usize = match raw.no {
            None => return Err(CommentParseError::MissingField(CommentField::No)),
            Some(CommentNo::Text(t)) => match crate::text::parse_bounded(t.as_str(), usize::MAX as u64) {
                Some(n) => n as usize,
                None => return Err(CommentParseError::NumberParse),
            },
            Some(CommentNo::Number(n)) => n,
        };
        let nickname = match raw.name {
            Some(n) => n,
            None => return Err(CommentParseError::MissingField(CommentField::Name)),
        };
        let depth = match raw.depth {
            Some(d) => d,
            None => return Err(CommentParseError::MissingField(CommentField::Depth)),
        };
        let contents = match raw.memo {
            Some(m) => m,
            None => return Err(CommentParseError::MissingField(CommentField::Memo)),
        };
        let kind = CommentKind::from_contents(contents.as_str());
        let created_at = match &raw.date {
            Some(d) => crate::time::parse_comment_time(d.as_str(), year),
            None => None,
        };
        let author = User::from_fields(raw.user_id, raw.ip, nickname);
        Ok(Comment { id, author, depth, contents, kind, parent_id: None, created_at })
    }
}

// ---------------------------------------------------------------------------
// Threading

/// Whether a comment opens a thread: a top-level comment that is not a
/// deleted placeholder (id 0).
pub open spec fn opens_thread(c: Comment) -> bool {
    c.depth == 0 && c.id > 0
}

/// The thread root in force after walking `cs`, starting from `init`.
pub open spec fn root_after(cs: Seq<Comment>, init: usize) -> usize
    decreases cs.len(),
{
    if cs.len() == 0 {
        init
    } else if opens_thread(cs.last()) {
        cs.last().id
    } else {
        root_after(cs.drop_last(), init)
    }
}

/// A comment placed under `root`: replies get it as their parent when there
/// is one; other comments are left alone.
pub open spec fn threaded(c: Comment, root: usize) -> Comment {
    if c.depth > 0 && root > 0 {
        Comment { parent_id: Some(root), ..c }
    } else {
        c
    }
}

pub open spec fn thread_all(cs: Seq<Comment>, init: usize) -> Seq<Comment> {
    Seq::new(cs.len(), |i: int| threaded(cs[i], root_after(cs.subrange(0, i), init)))
}

/// Gives every reply the id of the latest thread-opening comment before it,
/// starting from `last_root_comment_id` when the page continues a thread.
pub fn assign_parents(comments: &mut Vec<Comment>, last_root_comment_id: Option<usize>)
    ensures
        final(comments)@ == thread_all(
            old(comments)@,
            match last_root_comment_id {
                Some(id) => id,
                None => 0,
            },
        ),
{
    let init: usize = match last_root_comment_id {
        Some(id) => id,
        None => 0,
    };
    let ghost orig = comments@;
    let mut root: usize = init;
    let mut i: usize = 0;
    while i < comments.len()
        invariant
            orig == old(comments)@,
            comments@.len() == orig.len(),
            i <= orig.len(),
            root == root_after(orig.subrange(0, i as int), init),
            forall|k: int| 0 <= k < i ==> #[trigger] comments@[k] == threaded(
                orig[k],
                root_after(orig.subrange(0, k), init),
            ),
            forall|k: int| i <= k < orig.len() ==> #[trigger] comments@[k] == orig[k],
        decreases orig.len() - i,
    {
        assert(orig.subrange(0, i + 1).drop_last() =~= orig.subrange(0, i as int));
        assert(orig.subrange(0, i + 1).last() == orig[i as int]);
        if comments[i].depth == 0 && comments[i].id > 0 {
            root = comments[i].id;
        } else if comments[i].depth > 0 && root > 0 {
            let mut c = comments[i].copied();
            c.parent_id = Some(root);
            comments.set(i, c);
        }
        i = i + 1;
    }
    assert(comments@ =~= thread_all(orig, init));
}

// ---------------------------------------------------------------------------
// Pages

/// A page number from the pagination, or 0 for text that is not one.
pub open spec fn page_value(t: String) -> nat {
    match parse_unsigned(t@, usize::MAX as nat) {
        Some(n) => n,
        None => 0,
    }
}

/// The largest page number among the texts.
pub open spec fn max_page_of(ts: Seq<String>) -> nat
    decreases ts.len(),
{
    if ts.len() == 0 {
        0
    } else {
        let a = max_page_of(ts.drop_last());
        let b = page_value(ts.last());
        if a >= b {
            a
        } else {
            b
        }
    }
}

/// The last comment page: the largest number written in the pagination's
/// `em` and `a` elements.
pub fn max_page(texts: &Vec<String>) -> (r: usize)
    ensures
        r as nat == max_page_of(texts@),
{
    let mut best: usize = 0;
    let mut i: usize = 0;
    while i < texts.len()
        invariant
            i <= texts@.len(),
            best as nat == max_page_of(texts@.subrange(0, i as int)),
        decreases texts@.len() - i,
    {
        assert(texts@.subrange(0, i + 1).drop_last() =~= texts@.subrange(0, i as int));
        let v: usize = match crate::text::parse_bounded(texts[i].as_str(), usize::MAX as u64) {
            Some(n) => n as usize,
            None => 0,
        };
        if v > best {
            best = v;
        }
        i = i + 1;
    }
    assert(texts@.subrange(0, texts@.len() as int) =~= texts@);
    best
}

/// The comments of every record in order, or the first record's error.
pub open spec fn all_comments_from(cs: Seq<Comment>, raws: Seq<RawComment>, year: u32) -> bool {
    cs.len() == raws.len() && forall|i: int|
        0 <= i < cs.len() ==> comment_from(#[trigger] cs[i], raws[i], year)
}

pub open spec fn first_error(raws: Seq<RawComment>) -> Option<CommentParseError>
    decreases raws.len(),
{
    if raws.len() == 0 {
        None
    } else {
        match first_error(raws.drop_last()) {
            Some(e) => Some(e),
            None => comment_error(raws.last()),
        }
    }
}

/// Reads every record; fails with the first bad record's error.
pub fn comments_from_raw(raws: Vec<RawComment>, year: u32) -> (r: Result<Vec<Comment>, CommentParseError>)
    ensures
        match first_error(raws@) {
            Some(e) => r == Err::<Vec<Comment>, CommentParseError>(e),
            None => r is Ok && all_comments_from(r->Ok_0@, raws@, year),
        },
{
    let mut out: Vec<Comment> = Vec::new();
    let mut i: usize = 0;
    while i < raws.len()
        invariant
            i <= raws@.len(),
            first_error(raws@.subrange(0, i as int)) is None,
            all_comments_from(out@, raws@.subrange(0, i as int), year),
        decreases raws@.len() - i,
    {
        assert(raws@.subrange(0, i + 1).drop_last() =~= raws@.subrange(0, i as int));
        match Comment::from_raw(raws[i].copied(), year) {
            Ok(c) => {
                out.push(c);
            },
            Err(e) => {
                proof {
                    lemma_first_error_extends(raws@, i as int + 1);
                }
                return Err(e);
            },
        }
        i = i + 1;
    }
    assert(raws@.subrange(0, raws@.len() as int) =~= raws@);
    Ok(out)
}

proof fn lemma_first_error_extends(raws: Seq<RawComment>, n: int)
    requires
        0 <= n <= raws.len(),
        first_error(raws.subrange(0, n)) is Some,
    ensures
        first_error(raws) == first_error(raws.subrange(0, n)),
    decreases raws.len() - n,
{
    if n < raws.len() {
        assert(raws.subrange(0, n + 1).drop_last() =~= raws.subrange(0, n));
        lemma_first_error_extends(raws, n + 1);
    } else {
        assert(raws.subrange(0, n) =~= raws);
    }
}

/// One page of the comment endpoint's answer: its records, if any, and the
/// texts of its pagination's `em` and `a` elements, if it had pagination.
#[derive(Debug, PartialEq, Eq, Clone)]
pub struct CommentsResponse {
    pub comments: Option<Vec<RawComment>>,
    pub pagination: Option<Vec<String>>,
}

/// Reads one page of comments: its comments, threaded from
/// `last_root_comment_id`, and the last page number. A page without
/// pagination is empty with last page 0.
pub fn parse_comments(
    response: CommentsResponse,
    last_root_comment_id: Option<usize>,
    year: u32,
) -> (r: Result<(Vec<Comment>, usize), CommentParseError>)
    ensures
        response.pagination is None ==> r is Ok && r->Ok_0.0@.len() == 0 && r->Ok_0.1 == 0,
        response.pagination is Some ==> match response.comments {
            None => r is Ok && r->Ok_0.0@.len() == 0 && r->Ok_0.1 as nat == max_page_of(
                response.pagination->0@,
            ),
            Some(raws) => match first_error(raws@) {
                Some(e) => r == Err::<(Vec<Comment>, usize), CommentParseError>(e),
                None => r is Ok && r->Ok_0.1 as nat == max_page_of(response.pagination->0@)
                    && exists|cs: Seq<Comment>|
                    all_comments_from(cs, raws@, year) && r->Ok_0.0@ == thread_all(
                        cs,
                        match last_root_comment_id {
                            Some(id) => id,
                            None => 0,
                        },
                    ),
            },
        },
{
    match response.pagination {
        None => (Ok((Vec::new(), 0))),
        Some(pages) => {
            let last = max_page(&pages);
            match response.comments {
                None => Ok((Vec::new(), last)),
                Some(raws) => {
                    let mut cs = comments_from_raw(raws, year)?;
                    assign_parents(&mut cs, last_root_comment_id);
                    Ok((cs, last))
                },
            }
        },
    }
}

} // verus!
