//! The rank feeds' JSONP envelope: `<callback>(<json>);`.

use vstd::prelude::*;
use crate::model::{GalleryIndex, GalleryKind};
use crate::text::{is_prefix, trimmed};

verus! {

/// The text without one trailing `;`, if it ends with one.
pub open spec fn without_semicolon(s: Seq<char>) -> Seq<char> {
    if s.len() > 0 && s.last() == ';' {
        s.drop_last()
    } else {
        s
    }
}

/// The JSON inside a JSONP answer for `callback`: after trimming, the text
/// must start with `callback(` and end with `)`, optionally followed by `;`;
/// what stands between, trimmed, is the payload.
pub open spec fn jsonp_payload(text: Seq<char>, callback: Seq<char>) -> Option<Seq<char>> {
    let t = trimmed(text);
    let open = callback.push('(');
    if !is_prefix(open, t) {
        None
    } else {
        let rest = trimmed(without_semicolon(t.subrange(open.len() as int, t.len() as int)));
        if rest.len() > 0 && rest.last() == ')' {
            Some(trimmed(rest.drop_last()))
        } else {
            None
        }
    }
}

/// The JSON payload of a JSONP answer for `callback`, or `None` when the
/// answer is not wrapped in that callback.
pub fn strip_jsonp(text: &str, callback: &str) -> (r: Option<String>)
    ensures
        match jsonp_payload(text@, callback@) {
            Some(p) => r is Some && r->0@ == p,
            None => r is None,
        },
{
    let t = crate::text::chars_of(text);
    let t = crate::text::trim_chars(&t);
    let mut open = crate::text::chars_of(callback);
    open.push('(');
    let n = open.len();
    if n > t.len() {
        return None;
    }
    let mut i: usize = 0;
    while i < n
        invariant
            t@ == trimmed(text@),
            open@ == callback@.push('('),
            n == open@.len(),
            n <= t@.len(),
            i <= n,
            t@.subrange(0, i as int) == open@.subrange(0, i as int),
        decreases n - i,
    {
        if t[i] != open[i] {
            assert(t@.subrange(0, n as int)[i as int] != open@[i as int]);
            return None;
        }
        assert(t@.subrange(0, i + 1) =~= t@.subrange(0, i as int).push(t@[i as int]));
        assert(open@.subrange(0, i + 1) =~= open@.subrange(0, i as int).push(open@[i as int]));
        i = i + 1;
    }
    assert(open@.subrange(0, n as int) =~= open@);
    let mut rest: Vec<char> = Vec::new();
    let mut j: usize = n;
    while j < t.len()
        invariant
            n <= j <= t@.len(),
            rest@ == t@.subrange(n as int, j as int),
        decreases t@.len() - j,
    {
        rest.push(t[j]);
        assert(rest@ =~= t@.subrange(n as int, j + 1));
        j = j + 1;
    }
    if rest.len() > 0 && rest[rest.len() - 1] == ';' {
        rest.pop();
        assert(rest@ =~= without_semicolon(t@.subrange(n as int, t@.len() as int)));
    }
    let mut rest = crate::text::trim_chars(&rest);
    if rest.len() > 0 && rest[rest.len() - 1] == ')' {
        rest.pop();
        let inner = crate::text::trim_chars(&rest);
        Some(crate::text::string_of(&inner))
    } else {
        None
    }
}

/// The galleries of a rank feed, all of the kind the feed lists.
pub fn with_kind(galleries: Vec<GalleryIndex>, kind: GalleryKind) -> (r: Vec<GalleryIndex>)
    ensures
        r@.len() == galleries@.len(),
        forall|i: int|
            0 <= i < r@.len() ==> (#[trigger] r@[i]) == (GalleryIndex { kind, ..galleries@[i] }),
{
    let mut out: Vec<GalleryIndex> = Vec::new();
    let mut i: usize = 0;
    while i < galleries.len()
        invariant
            i <= galleries@.len(),
            out@.len() == i,
            forall|k: int|
                0 <= k < i ==> (#[trigger] out@[k]) == (GalleryIndex { kind, ..galleries@[k] }),
        decreases galleries@.len() - i,
    {
        let mut g = galleries[i].copied();
        g.kind = kind;
        out.push(g);
        i = i + 1;
    }
    out
}

} // verus!
