//! The worker's decisions in one crawl cycle: which galleries first, how
//! each is crawled, and what is reported back.

use vstd::prelude::*;
use vstd::seq_lib::{to_multiset_insert, to_multiset_build};
use crate::model::{
    Document, GalleryCrawlErrorReportForm, GalleryCrawlReportForm, GalleryState, Timestamp,
};
use crate::error::{CrawlerError, report_of};

verus! {

/// Whether `a` is at least as stale as `b`: never crawled comes first,
/// then earlier crawls.
pub open spec fn staler_or_same(a: GalleryState, b: GalleryState) -> bool {
    match (a.last_crawled_at, b.last_crawled_at) {
        (None, _) => true,
        (Some(_), None) => false,
        (Some(x), Some(y)) => x <= y,
    }
}

pub open spec fn by_staleness(s: Seq<GalleryState>) -> bool {
    forall|i: int, j: int| 0 <= i < j < s.len() ==> staler_or_same(#[trigger] s[i], #[trigger] s[j])
}

/// `s` with `g` placed after the last record at least as stale as `g`.
pub open spec fn insert_by_staleness(s: Seq<GalleryState>, g: GalleryState) -> Seq<GalleryState>
    decreases s.len(),
{
    if s.len() == 0 || staler_or_same(s.last(), g) {
        s.push(g)
    } else {
        insert_by_staleness(s.drop_last(), g).push(s.last())
    }
}

/// The records in crawl order, sorted stably: each record goes after every
/// earlier record at least as stale, so ties keep their order.
pub open spec fn staleness_sorted(s: Seq<GalleryState>) -> Seq<GalleryState>
    decreases s.len(),
{
    if s.len() == 0 {
        s
    } else {
        insert_by_staleness(staleness_sorted(s.drop_last()), s.last())
    }
}

proof fn lemma_insert_at(s: Seq<GalleryState>, g: GalleryState, k: int)
    requires
        0 <= k <= s.len(),
        forall|m: int| k <= m < s.len() ==> !staler_or_same(#[trigger] s[m], g),
        k == 0 || staler_or_same(s[k - 1], g),
    ensures
        insert_by_staleness(s, g) == s.insert(k, g),
    decreases s.len(),
{
    if k == s.len() {
        assert(s.push(g) =~= s.insert(k, g));
    } else {
        let t = s.drop_last();
        assert(!staler_or_same(s[s.len() - 1], g));
        assert forall|m: int| k <= m < t.len() implies !staler_or_same(#[trigger] t[m], g) by {
            assert(t[m] == s[m]);
        }
        if k > 0 {
            assert(t[k - 1] == s[k - 1]);
        }
        lemma_insert_at(t, g, k);
        assert(t.insert(k, g).push(s.last()) =~= s.insert(k, g));
    }
}

fn staler_or_same_exec(a: &GalleryState, b: &GalleryState) -> (r: bool)
    ensures
        r == staler_or_same(*a, *b),
{
    match (a.last_crawled_at, b.last_crawled_at) {
        (None, _) => true,
        (Some(_), None) => false,
        (Some(x), Some(y)) => x <= y,
    }
}

/// The galleries of a shard in crawl order: never crawled first, then the
/// longest unvisited; ties keep their order.
pub fn order_by_staleness(states: Vec<GalleryState>) -> (r: Vec<GalleryState>)
    ensures
        r@ == staleness_sorted(states@),
        by_staleness(r@),
        r@.to_multiset() == states@.to_multiset(),
{
    broadcast use to_multiset_insert;

    let mut out: Vec<GalleryState> = Vec::new();
    let mut rest = states;
    let ghost all = rest@;
    let n = rest.len();
    let mut i: usize = 0;
    assert(out@ =~= all.subrange(0, 0));
    assert(staleness_sorted(all.subrange(0, 0)) == all.subrange(0, 0));
    while i < n
        invariant
            n == all.len(),
            i <= n,
            rest@ == all.subrange(i as int, n as int),
            by_staleness(out@),
            out@ == staleness_sorted(all.subrange(0, i as int)),
            out@.to_multiset() == all.subrange(0, i as int).to_multiset(),
        decreases n - i,
    {
        let g = rest.remove(0);
        assert(rest@ =~= all.subrange(i + 1, n as int));
        assert(g == all[i as int]);
        // insert after every record at least as stale as `g`
        let mut k: usize = out.len();
        while k > 0 && !staler_or_same_exec(&out[k - 1], &g)
            invariant
                k <= out@.len(),
                forall|m: int| k <= m < out@.len() ==> !staler_or_same(#[trigger] out@[m], g),
            decreases k,
        {
            k = k - 1;
        }
        let ghost before = out@;
        proof {
            assert forall|m: int| k <= m < out@.len() implies staler_or_same(g, #[trigger] out@[m]) by {
                assert(!staler_or_same(out@[m], g));
            }
            if k > 0 {
                assert(staler_or_same(out@[k - 1], g));
                assert forall|m: int| 0 <= m < k implies staler_or_same(#[trigger] out@[m], g) by {
                    if m < k - 1 {
                        assert(staler_or_same(out@[m], out@[k - 1]));
                    }
                }
            }
        }
        out.insert(k, g);
        proof {
            lemma_insert_at(before, g, k as int);
            assert(all.subrange(0, i + 1).drop_last() =~= all.subrange(0, i as int));
            assert(all.subrange(0, i + 1).last() == g);
            assert(out@ == before.insert(k as int, g));
            assert(all.subrange(0, i + 1) =~= all.subrange(0, i as int).push(g));
            to_multiset_build(all.subrange(0, i as int), g);
            to_multiset_insert(before, k as int, g);
            assert(out@.to_multiset() == all.subrange(0, i + 1).to_multiset());
            assert forall|a: int, b: int| 0 <= a < b < out@.len() implies staler_or_same(
                #[trigger] out@[a],
                #[trigger] out@[b],
            ) by {
                if a < k && b < k {
                    assert(out@[a] == before[a] && out@[b] == before[b]);
                } else if a < k && b == k {
                    assert(out@[a] == before[a]);
                } else if a < k {
                    assert(out@[a] == before[a] && out@[b] == before[b - 1]);
                    if b - 1 >= k {
                        assert(staler_or_same(before[a], g));
                        assert(staler_or_same(g, before[b - 1]));
                    }
                } else if a == k {
                    assert(out@[b] == before[b - 1]);
                } else {
                    assert(out@[a] == before[a - 1] && out@[b] == before[b - 1]);
                }
            }
        }
        i = i + 1;
    }
    assert(all.subrange(0, n as int) =~= all);
    out
}

/// How a gallery is crawled: from the last post seen when there is one.
pub open spec fn resume_point(s: GalleryState) -> Option<usize> {
    match s.last_crawled_document_id {
        Some(x) if x > 0 => Some(x),
        _ => None,
    }
}

/// The post to crawl after, or `None` to crawl from the start page.
pub fn crawl_plan(state: &GalleryState) -> (r: Option<usize>)
    ensures
        r == resume_point(*state),
{
    match state.last_crawled_document_id {
        Some(x) => if x > 0 {
            Some(x)
        } else {
            None
        },
        None => None,
    }
}

/// The highest id among the documents crawled, starting from `init`.
pub open spec fn max_doc_id(docs: Seq<Result<Document, CrawlerError>>, init: nat) -> nat
    decreases docs.len(),
{
    if docs.len() == 0 {
        init
    } else {
        let m = max_doc_id(docs.drop_last(), init);
        match docs.last() {
            Ok(d) => if d.id > m {
                d.id as nat
            } else {
                m
            },
            Err(_) => m,
        }
    }
}

/// The success report of a crawl of gallery `id` at `now` that produced
/// `docs`, for a gallery last crawled up to `previous`.
pub fn success_report(
    worker_part: u64,
    id: &str,
    now: Timestamp,
    previous: Option<usize>,
    docs: &Vec<Result<Document, CrawlerError>>,
) -> (r: GalleryCrawlReportForm)
    ensures
        r.worker_part == worker_part,
        r.id@ == id@,
        r.last_crawled_at == Some(now),
        r.crawled_document_count == docs@.len(),
        ({
            let m = max_doc_id(
                docs@,
                match previous {
                    Some(p) => p as nat,
                    None => 0,
                },
            );
            r.last_crawled_document_id == if m > 0 {
                Some(m as usize)
            } else {
                None
            }
        }),
{
    let mut last: usize = match previous {
        Some(p) => p,
        None => 0,
    };
    let mut i: usize = 0;
    while i < docs.len()
        invariant
            i <= docs@.len(),
            last as nat == max_doc_id(
                docs@.subrange(0, i as int),
                match previous {
                    Some(p) => p as nat,
                    None => 0,
                },
            ),
        decreases docs@.len() - i,
    {
        assert(docs@.subrange(0, i + 1).drop_last() =~= docs@.subrange(0, i as int));
        assert(docs@.subrange(0, i + 1).last() == docs@[i as int]);
        match &docs[i] {
            Ok(d) => if d.id > last {
                last = d.id;
            },
            Err(_) => {},
        }
        i = i + 1;
    }
    assert(docs@.subrange(0, docs@.len() as int) =~= docs@);
    GalleryCrawlReportForm {
        worker_part,
        id: String::from_str(id),
        last_crawled_at: Some(now),
        last_crawled_document_id: if last > 0 {
            Some(last)
        } else {
            None
        },
        crawled_document_count: docs.len(),
    }
}

/// The error report of a failed crawl of gallery `id` at `now`.
pub fn error_report(worker_part: u64, id: &str, now: Timestamp, err: &CrawlerError) -> (r: GalleryCrawlErrorReportForm)
    ensures
        r.worker_part == worker_part,
        r.id@ == id@,
        r.last_crawled_at == Some(now),
        r.error == report_of(*err),
{
    GalleryCrawlErrorReportForm {
        worker_part,
        id: String::from_str(id),
        last_crawled_at: Some(now),
        error: crate::model::CrawlerErrorReport::from_error(err),
    }
}

/// A worker's success report never names a post older than the one the
/// directory already had.
pub proof fn lemma_report_never_regresses(docs: Seq<Result<Document, CrawlerError>>, previous: nat)
    ensures
        max_doc_id(docs, previous) >= previous,
    decreases docs.len(),
{
    if docs.len() > 0 {
        lemma_report_never_regresses(docs.drop_last(), previous);
    }
}

} // verus!
