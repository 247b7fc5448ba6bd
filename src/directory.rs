//! The live directory: one record per discovered gallery, the publish-rate
//! estimator, the wait filter and the shard listing served to workers.

use vstd::prelude::*;
use crate::model::{GalleryState, GalleryIndex, CrawlerErrorReport, GalleryCrawlReportForm, GalleryCrawlErrorReportForm, Timestamp};

verus! {

/// Weights of the estimator are parts of this whole.
pub const WEIGHT_SCALE: u64 = 10000;

/// The short-horizon ceiling of one sample: an hour, in milliseconds.
pub const SHORT_CAP_MILLIS: u64 = 3600000;

/// The long-horizon ceiling of one sample: a day, in milliseconds.
pub const LONG_CAP_MILLIS: u64 = 86400000;

pub const DEFAULT_WEIGHT1: u64 = 999;

pub const DEFAULT_WEIGHT2: u64 = 1;

pub const DEFAULT_DOCS_PER_CRAWL: u64 = 10;

pub const DEFAULT_MIN_WAIT_SECONDS: u64 = 10800;

pub const FNV_OFFSET: u64 = 0xcbf29ce484222325;

pub const FNV_PRIME: u64 = 0x100000001b3;

/// The value `visible` takes when a stored record does not say.
pub fn default_as_true() -> (r: bool)
    ensures
        r,
{
    true
}

// ---------------------------------------------------------------------------
// Shard hash

pub open spec fn hash_step(h: u64, c: char) -> u64 {
    (h ^ (c as u64)).wrapping_mul(FNV_PRIME)
}

/// FNV-1a over the code points of a gallery id.
pub open spec fn id_hash(s: Seq<char>) -> u64
    decreases s.len(),
{
    if s.len() == 0 {
        FNV_OFFSET
    } else {
        hash_step(id_hash(s.drop_last()), s.last())
    }
}

/// The stable shard hash of a gallery id: FNV-1a (64 bit) over its code
/// points, the same in every process and on every machine.
pub fn hash(id: &str) -> (r: u64)
    ensures
        r == id_hash(id@),
{
    let cs = crate::text::chars_of(id);
    let mut h: u64 = FNV_OFFSET;
    let mut i: usize = 0;
    while i < cs.len()
        invariant
            cs@ == id@,
            i <= cs@.len(),
            h == id_hash(cs@.subrange(0, i as int)),
        decreases cs@.len() - i,
    {
        assert(cs@.subrange(0, i + 1).drop_last() == cs@.subrange(0, i as int));
        h = (h ^ (cs[i] as u64)).wrapping_mul(FNV_PRIME);
        i = i + 1;
    }
    assert(cs@.subrange(0, cs@.len() as int) == cs@);
    h
}

/// The shard that owns a gallery id among `total` shards.
pub open spec fn shard_of(id: Seq<char>, total: u64) -> int
    recommends
        total > 0,
{
    (id_hash(id) % total) as int
}

// ---------------------------------------------------------------------------
// Configuration

/// The directory's tunables: how many documents a crawl should find, the
/// longest wait between crawls, and the estimator's two weights (parts of
/// `WEIGHT_SCALE`).
#[derive(Debug, PartialEq, Eq, Structural, Clone, Copy)]
pub struct DirectoryConfig {
    pub target_docs_per_crawl: u64,
    pub min_wait_seconds: u64,
    pub weight1: u64,
    pub weight2: u64,
}

impl DirectoryConfig {
    pub open spec fn wf(self) -> bool {
        self.weight1 + self.weight2 <= WEIGHT_SCALE
    }

    /// Ten documents per crawl, at most three hours of waiting, weights
    /// 0.0999 and 0.0001.
    pub fn new() -> (r: DirectoryConfig)
        ensures
            r.wf(),
            r.target_docs_per_crawl == DEFAULT_DOCS_PER_CRAWL,
            r.min_wait_seconds == DEFAULT_MIN_WAIT_SECONDS,
            r.weight1 == DEFAULT_WEIGHT1,
            r.weight2 == DEFAULT_WEIGHT2,
    {
        DirectoryConfig {
            target_docs_per_crawl: DEFAULT_DOCS_PER_CRAWL,
            min_wait_seconds: DEFAULT_MIN_WAIT_SECONDS,
            weight1: DEFAULT_WEIGHT1,
            weight2: DEFAULT_WEIGHT2,
        }
    }

    pub fn docs_per_crawl(self, v: u64) -> (r: DirectoryConfig)
        ensures
            r == (DirectoryConfig { target_docs_per_crawl: v, ..self }),
    {
        DirectoryConfig { target_docs_per_crawl: v, ..self }
    }

    pub fn min_wait_seconds(self, v: u64) -> (r: DirectoryConfig)
        ensures
            r == (DirectoryConfig { min_wait_seconds: v, ..self }),
    {
        DirectoryConfig { min_wait_seconds: v, ..self }
    }

    pub fn pub_dur_estimate_weight1(self, v: u64) -> (r: DirectoryConfig)
        ensures
            r == (DirectoryConfig { weight1: v, ..self }),
    {
        DirectoryConfig { weight1: v, ..self }
    }

    pub fn pub_dur_estimate_weight2(self, v: u64) -> (r: DirectoryConfig)
        ensures
            r == (DirectoryConfig { weight2: v, ..self }),
    {
        DirectoryConfig { weight2: v, ..self }
    }
}

// ---------------------------------------------------------------------------
// Publish-duration estimator

pub open spec fn min_int(a: int, b: int) -> int {
    if a <= b {
        a
    } else {
        b
    }
}

/// Publications are measured from the last publication, or from registration
/// before the first one.
pub open spec fn anchor_of(s: GalleryState) -> Option<Timestamp> {
    if s.last_published_at is Some {
        s.last_published_at
    } else {
        s.registered_at
    }
}

pub open spec fn duration_or_zero(s: GalleryState) -> int {
    match s.publish_duration_millis {
        Some(d) => d as int,
        None => 0,
    }
}

/// Integer division that rounds toward zero, as a float truncated to an
/// integer would.
pub open spec fn div_toward_zero(n: int, d: int) -> int {
    if n >= 0 {
        n / d
    } else {
        -((-n) / d)
    }
}

/// Milliseconds per published document since the anchor, negative when the
/// report is stamped before its anchor; nothing when no document was
/// published or a time is missing.
pub open spec fn sample_millis(at: Option<Timestamp>, anchor: Option<Timestamp>, count: nat) -> Option<int> {
    if count == 0 || at is None || anchor is None {
        None
    } else {
        Some(div_toward_zero((at->0 - anchor->0) * 1000, count as int))
    }
}

/// The two-weight moving average: the old value keeps `1 - w1 - w2` of its
/// weight and the sample, capped from above at an hour and at a day, brings
/// in the rest.
pub open spec fn ewma(old: int, sample: Option<int>, w1: int, w2: int) -> int {
    let kept = (WEIGHT_SCALE - w1 - w2) * old;
    match sample {
        None => div_toward_zero(kept, WEIGHT_SCALE as int),
        Some(d) => div_toward_zero(
            kept + w1 * min_int(d, SHORT_CAP_MILLIS as int) + w2 * min_int(d, LONG_CAP_MILLIS as int),
            WEIGHT_SCALE as int,
        ),
    }
}

/// The new estimate in milliseconds. It is stored as an `i64`: an estimate
/// below `i64::MIN` milliseconds (some 292 million years per document
/// before the anchor) saturates there.
pub open spec fn estimate(
    cfg: DirectoryConfig,
    at: Option<Timestamp>,
    count: nat,
    s: GalleryState,
) -> int {
    let e = ewma(
        duration_or_zero(s),
        sample_millis(at, anchor_of(s), count),
        cfg.weight1 as int,
        cfg.weight2 as int,
    );
    if e < i64::MIN {
        i64::MIN as int
    } else {
        e
    }
}

proof fn lemma_ewma_upper(old: int, d1: int, d2: int, w1: int, w2: int, m: int)
    requires
        old <= m,
        d1 <= m,
        d2 <= m,
        0 <= m,
        0 <= w1,
        0 <= w2,
        w1 + w2 <= WEIGHT_SCALE,
    ensures
        div_toward_zero((WEIGHT_SCALE - w1 - w2) * old + w1 * d1 + w2 * d2, WEIGHT_SCALE as int) <= m,
{
    let s = WEIGHT_SCALE as int;
    let n = (s - w1 - w2) * old + w1 * d1 + w2 * d2;
    assert(n <= s * m) by (nonlinear_arith)
        requires
            old <= m,
            d1 <= m,
            d2 <= m,
            0 <= w1,
            0 <= w2,
            w1 + w2 <= s,
            n == (s - w1 - w2) * old + w1 * d1 + w2 * d2,
    ;
    if n >= 0 {
        assert(n / s <= m) by (nonlinear_arith)
            requires
                0 <= n <= s * m,
                s > 0,
        ;
    } else {
        assert((-n) / s >= 0) by (nonlinear_arith)
            requires
                -n > 0,
                s > 0,
        ;
    }
}

/// The estimate is never above the larger of the old value and a day, and
/// never below `i64::MIN`.
pub proof fn lemma_estimate_bounded(cfg: DirectoryConfig, at: Option<Timestamp>, count: nat, s: GalleryState)
    requires
        cfg.wf(),
    ensures
        i64::MIN <= estimate(cfg, at, count, s),
        estimate(cfg, at, count, s) <= duration_or_zero(s) || estimate(cfg, at, count, s)
            <= LONG_CAP_MILLIS,
        duration_or_zero(s) <= LONG_CAP_MILLIS ==> estimate(cfg, at, count, s) <= LONG_CAP_MILLIS,
{
    let old = duration_or_zero(s);
    let m = if old <= LONG_CAP_MILLIS {
        LONG_CAP_MILLIS as int
    } else {
        old
    };
    let w1 = cfg.weight1 as int;
    let w2 = cfg.weight2 as int;
    match sample_millis(at, anchor_of(s), count) {
        None => lemma_ewma_upper(old, 0, 0, w1, w2, m),
        Some(d) => lemma_ewma_upper(
            old,
            min_int(d, SHORT_CAP_MILLIS as int),
            min_int(d, LONG_CAP_MILLIS as int),
            w1,
            w2,
            m,
        ),
    }
}

/// Rounds `n / d` toward zero.
fn div_trunc(n: i128, d: i128) -> (r: i128)
    requires
        d > 0,
        n > i128::MIN,
    ensures
        r as int == div_toward_zero(n as int, d as int),
{
    if n >= 0 {
        n / d
    } else {
        let q: i128 = (-n) / d;
        assert(0 <= (-(n as int)) / (d as int) <= -(n as int)) by (nonlinear_arith)
            requires
                -(n as int) > 0,
                d > 0,
        ;
        -q
    }
}

/// Milliseconds per document since `anchor`.
fn sample_of(at: Option<Timestamp>, anchor: Option<Timestamp>, count: usize) -> (r: Option<i128>)
    ensures
        match sample_millis(at, anchor, count as nat) {
            None => r is None,
            Some(d) => r == Some(d as i128) && -0x4_0000_0000_0000_0000_000 <= d <= 0x4_0000_0000_0000_0000_000,
        },
{
    if count == 0 {
        return None;
    }
    match (at, anchor) {
        (Some(n), Some(o)) => {
            let elapsed: i128 = (n as i128 - o as i128) * 1000;
            let q = div_trunc(elapsed, count as i128);
            assert(-0x4_0000_0000_0000_0000_000 <= div_toward_zero(elapsed as int, count as int)
                <= 0x4_0000_0000_0000_0000_000) by (nonlinear_arith)
                requires
                    -0x4_0000_0000_0000_0000_000 <= elapsed <= 0x4_0000_0000_0000_0000_000,
                    count >= 1,
                    div_toward_zero(elapsed as int, count as int) == (if elapsed >= 0 {
                        (elapsed as int) / (count as int)
                    } else {
                        -((-(elapsed as int)) / (count as int))
                    }),
            ;
            Some(q)
        },
        _ => None,
    }
}

impl DirectoryConfig {
    /// The new publish-duration estimate, in milliseconds, after a report
    /// stamped `last_crawled_at` that published `crawled_document_count`
    /// documents.
    pub fn estimate_publish_duration(
        &self,
        last_crawled_at: Option<Timestamp>,
        crawled_document_count: usize,
        state: &GalleryState,
    ) -> (r: i64)
        requires
            self.wf(),
        ensures
            r as int == estimate(*self, last_crawled_at, crawled_document_count as nat, *state),
    {
        proof {
            lemma_estimate_bounded(*self, last_crawled_at, crawled_document_count as nat, *state);
        }
        let old: i128 = match state.publish_duration_millis {
            Some(d) => d as i128,
            None => 0,
        };
        let anchor = if state.last_published_at.is_some() {
            state.last_published_at
        } else {
            state.registered_at
        };
        let keep: i128 = (WEIGHT_SCALE - self.weight1 - self.weight2) as i128;
        assert(-0x1_0000_0000_0000_0000_0000 <= keep * old <= 0x1_0000_0000_0000_0000_0000) by (nonlinear_arith)
            requires
                0 <= keep <= 10000,
                -0x8000_0000_0000_0000 <= old <= 0x8000_0000_0000_0000,
        ;
        let kept: i128 = keep * old;
        let sample = sample_of(last_crawled_at, anchor, crawled_document_count);
        let total: i128 = match sample {
            None => kept,
            Some(d) => {
                let short: i128 = if d < SHORT_CAP_MILLIS as i128 {
                    d
                } else {
                    SHORT_CAP_MILLIS as i128
                };
                let long: i128 = if d < LONG_CAP_MILLIS as i128 {
                    d
                } else {
                    LONG_CAP_MILLIS as i128
                };
                let w1: i128 = self.weight1 as i128;
                let w2: i128 = self.weight2 as i128;
                assert(-0x1000_0000_0000_0000_0000_0000 <= w1 * short <= 0x1000_0000_0000_0000_0000_0000)
                    by (nonlinear_arith)
                    requires
                        0 <= w1 <= 10000,
                        -0x4_0000_0000_0000_0000_000 <= short <= 0x4_0000_0000_0000_0000_000,
                ;
                assert(-0x1000_0000_0000_0000_0000_0000 <= w2 * long <= 0x1000_0000_0000_0000_0000_0000)
                    by (nonlinear_arith)
                    requires
                        0 <= w2 <= 10000,
                        -0x4_0000_0000_0000_0000_000 <= long <= 0x4_0000_0000_0000_0000_000,
                ;
                kept + w1 * short + w2 * long
            },
        };
        let q = div_trunc(total, WEIGHT_SCALE as i128);
        if q < i64::MIN as i128 {
            i64::MIN
        } else {
            q as i64
        }
    }

    /// How long, in milliseconds, a gallery waits after its anchor before it
    /// is crawled again.
    pub open spec fn wait_millis(self, s: GalleryState) -> int {
        min_int(
            duration_or_zero(s) * self.target_docs_per_crawl,
            self.min_wait_seconds * 1000,
        )
    }

    /// A gallery is due once its wait has elapsed since the anchor; one
    /// without an anchor is always due.
    pub open spec fn eligible(self, s: GalleryState, now: Timestamp) -> bool {
        match anchor_of(s) {
            None => true,
            Some(t) => (now - t) * 1000 >= self.wait_millis(s),
        }
    }

    /// Whether the gallery is due for a crawl at `now`.
    pub fn is_eligible(&self, s: &GalleryState, now: Timestamp) -> (r: bool)
        ensures
            r == self.eligible(*s, now),
    {
        let anchor = if s.last_published_at.is_some() {
            s.last_published_at
        } else {
            s.registered_at
        };
        match anchor {
            None => true,
            Some(t) => {
                let old: i128 = match s.publish_duration_millis {
                    Some(d) => d as i128,
                    None => 0,
                };
                let docs: i128 = self.target_docs_per_crawl as i128;
                assert(-0x7fff_ffff_ffff_ffff_ffff_ffff_ffff_ffff <= old * docs
                    <= 0x7fff_ffff_ffff_ffff_ffff_ffff_ffff_ffff) by (nonlinear_arith)
                    requires
                        -0x8000_0000_0000_0000 <= old <= 0x7fff_ffff_ffff_ffff,
                        0 <= docs <= 0xffff_ffff_ffff_ffff,
                ;
                let by_rate: i128 = old * docs;
                let cap: i128 = self.min_wait_seconds as i128 * 1000;
                let wait: i128 = if by_rate <= cap {
                    by_rate
                } else {
                    cap
                };
                let elapsed: i128 = (now as i128 - t as i128) * 1000;
                elapsed >= wait
            },
        }
    }
}

// ---------------------------------------------------------------------------
// Record transitions

/// The errors after which a gallery is taken as unreachable and hidden.
pub open spec fn hides(e: CrawlerErrorReport) -> bool {
    match e {
        CrawlerErrorReport::PageNotFound => true,
        CrawlerErrorReport::MinorGalleryClosed => true,
        CrawlerErrorReport::MinorGalleryPromoted => true,
        CrawlerErrorReport::AdultPage => true,
        _ => false,
    }
}

/// The higher of two optional post ids; an absent one loses.
pub open spec fn max_id(a: Option<usize>, b: Option<usize>) -> Option<usize> {
    match (a, b) {
        (Some(x), Some(y)) => if x >= y {
            Some(x)
        } else {
            Some(y)
        },
        (Some(x), None) => Some(x),
        (None, _) => b,
    }
}

/// The record after a success report on it.
pub open spec fn after_report(cfg: DirectoryConfig, s: GalleryState, f: GalleryCrawlReportForm) -> GalleryState {
    GalleryState {
        publish_duration_millis: Some(estimate(cfg, f.last_crawled_at, f.crawled_document_count as nat, s) as i64),
        last_published_at: if f.crawled_document_count > 0 {
            f.last_crawled_at
        } else {
            s.last_published_at
        },
        last_crawled_at: f.last_crawled_at,
        last_crawled_document_id: max_id(s.last_crawled_document_id, f.last_crawled_document_id),
        ..s
    }
}

/// The record after an error report on it: the error is kept, the estimate
/// decays, and an unreachable gallery is hidden.
pub open spec fn after_error_report(
    cfg: DirectoryConfig,
    s: GalleryState,
    f: GalleryCrawlErrorReportForm,
) -> GalleryState {
    GalleryState {
        last_error: Some(f.error),
        last_crawled_at: f.last_crawled_at,
        publish_duration_millis: Some(estimate(cfg, f.last_crawled_at, 0, s) as i64),
        visible: if hides(f.error) {
            false
        } else {
            s.visible
        },
        ..s
    }
}

/// A record for a gallery first seen in a rank feed at `now`.
pub open spec fn fresh_state(index: GalleryIndex, now: Timestamp) -> GalleryState {
    GalleryState {
        index,
        last_ranked: now,
        last_crawled_at: None,
        last_crawled_document_id: None,
        visible: true,
        last_error: None,
        publish_duration_millis: None,
        last_published_at: None,
        registered_at: Some(now),
    }
}

/// A known record seen again in the realtime-hot feed: shown again, and
/// its rate measured afresh.
pub open spec fn after_hot_sighting(s: GalleryState, index: GalleryIndex, now: Timestamp) -> GalleryState {
    GalleryState {
        index,
        last_ranked: now,
        visible: true,
        last_published_at: None,
        publish_duration_millis: None,
        ..s
    }
}

/// A record with its registration time filled in where it was missing.
pub open spec fn backfilled(s: GalleryState, now: Timestamp) -> GalleryState {
    if s.registered_at is Some {
        s
    } else {
        GalleryState { registered_at: Some(now), ..s }
    }
}

// ---------------------------------------------------------------------------
// Store

pub open spec fn has_id(s: Seq<GalleryState>, id: Seq<char>) -> bool {
    exists|i: int| 0 <= i < s.len() && (#[trigger] s[i]).index.id@ == id
}

pub open spec fn ids_unique(s: Seq<GalleryState>) -> bool {
    forall|i: int, j: int|
        0 <= i < s.len() && 0 <= j < s.len() && i != j ==> (#[trigger] s[i]).index.id@ != (
        #[trigger] s[j]).index.id@
}

pub open spec fn durations_bounded(s: Seq<GalleryState>) -> bool {
    forall|i: int|
        0 <= i < s.len() ==> duration_or_zero(#[trigger] s[i]) <= LONG_CAP_MILLIS
}

/// Applies `f` to the record with id `id`, leaving the others alone.
pub open spec fn update_id(
    s: Seq<GalleryState>,
    id: Seq<char>,
    f: spec_fn(GalleryState) -> GalleryState,
) -> Seq<GalleryState> {
    s.map_values(|g: GalleryState| if g.index.id@ == id {
        f(g)
    } else {
        g
    })
}

/// Whether the record is served in shard `part` of `total` at `now`.
pub open spec fn listed(cfg: DirectoryConfig, g: GalleryState, total: u64, part: u64, now: Timestamp) -> bool {
    shard_of(g.index.id@, total) == part && g.visible && cfg.eligible(g, now)
}

pub open spec fn listing_pred(cfg: DirectoryConfig, total: u64, part: u64, now: Timestamp) -> spec_fn(
    GalleryState,
) -> bool {
    |g: GalleryState| listed(cfg, g, total, part, now)
}

/// What `/list` serves for shard `part` of `total` at `now`.
pub open spec fn shard_listing(
    cfg: DirectoryConfig,
    s: Seq<GalleryState>,
    total: u64,
    part: u64,
    now: Timestamp,
) -> Seq<GalleryState> {
    s.filter(listing_pred(cfg, total, part, now))
}

/// The reason a report was refused.
#[derive(Debug, PartialEq, Eq, Structural, Clone, Copy)]
pub enum LiveDirectoryError {
    /// No gallery with the report's id was ever discovered.
    NotFound,
}

impl LiveDirectoryError {
    /// The HTTP status a refused report is answered with.
    pub fn status_code(&self) -> (r: u16)
        ensures
            *self == LiveDirectoryError::NotFound ==> r == 404,
    {
        match self {
            LiveDirectoryError::NotFound => 404,
        }
    }
}

/// The directory's store: one record per gallery ever discovered, never
/// deleted, each id once.
pub struct Directory {
    galleries: Vec<GalleryState>,
    config: DirectoryConfig,
}

impl View for Directory {
    type V = Seq<GalleryState>;

    closed spec fn view(&self) -> Seq<GalleryState> {
        self.galleries@
    }
}

impl Directory {
    /// The tunables the directory runs with.
    pub closed spec fn spec_config(&self) -> DirectoryConfig {
        self.config
    }

    pub open spec fn wf(&self) -> bool {
        &&& ids_unique(self@)
        &&& durations_bounded(self@)
        &&& self.spec_config().wf()
    }

    /// The tunables the directory runs with.
    pub fn config(&self) -> (r: DirectoryConfig)
        ensures
            r == self.spec_config(),
    {
        self.config
    }

    /// An empty directory.
    pub fn new(config: DirectoryConfig) -> (r: Directory)
        requires
            config.wf(),
        ensures
            r.wf(),
            r@ == Seq::<GalleryState>::empty(),
            r.spec_config() == config,
    {
        Directory { galleries: Vec::new(), config }
    }

    /// The number of galleries known.
    pub fn len(&self) -> (r: usize)
        ensures
            r == self@.len(),
    {
        self.galleries.len()
    }

    /// The records, in the order they were discovered.
    pub fn states(&self) -> (r: Vec<GalleryState>)
        ensures
            r@ == self@,
    {
        let mut out: Vec<GalleryState> = Vec::new();
        let mut i: usize = 0;
        while i < self.galleries.len()
            invariant
                i <= self@.len(),
                out@ == self@.subrange(0, i as int),
            decreases self@.len() - i,
        {
            out.push(self.galleries[i].copied());
            assert(out@ =~= self@.subrange(0, i + 1));
            i = i + 1;
        }
        assert(self@.subrange(0, self@.len() as int) =~= self@);
        out
    }

    /// Where the record with id `id` stands, if it exists.
    pub fn position(&self, id: &str) -> (r: Option<usize>)
        requires
            self.wf(),
        ensures
            match r {
                Some(i) => i < self@.len() && self@[i as int].index.id@ == id@,
                None => !has_id(self@, id@),
            },
    {
        let mut i: usize = 0;
        while i < self.galleries.len()
            invariant
                i <= self@.len(),
                forall|j: int| 0 <= j < i ==> (#[trigger] self@[j]).index.id@ != id@,
            decreases self@.len() - i,
        {
            if crate::text::str_eq(self.galleries[i].index.id.as_str(), id) {
                return Some(i);
            }
            i = i + 1;
        }
        None
    }

    /// The record with id `id`, if it exists.
    pub fn get(&self, id: &str) -> (r: Option<GalleryState>)
        requires
            self.wf(),
        ensures
            match r {
                Some(g) => g.index.id@ == id@ && self@.contains(g),
                None => !has_id(self@, id@),
            },
    {
        match self.position(id) {
            Some(i) => Some(self.galleries[i].copied()),
            None => None,
        }
    }

    proof fn lemma_update_at(
        s: Seq<GalleryState>,
        i: int,
        id: Seq<char>,
        f: spec_fn(GalleryState) -> GalleryState,
    )
        requires
            ids_unique(s),
            0 <= i < s.len(),
            s[i].index.id@ == id,
        ensures
            s.update(i, f(s[i])) == update_id(s, id, f),
    {
        assert(s.update(i, f(s[i])) =~= update_id(s, id, f));
    }

    /// Replaces the record at `i` by `g`, which keeps its id.
    fn replace_at(&mut self, i: usize, g: GalleryState)
        requires
            old(self).wf(),
            i < old(self)@.len(),
            g.index.id@ == old(self)@[i as int].index.id@,
            duration_or_zero(g) <= LONG_CAP_MILLIS,
        ensures
            final(self).wf(),
            final(self)@ == old(self)@.update(i as int, g),
            final(self).spec_config() == old(self).spec_config(),
    {
        self.galleries.set(i, g);
        assert forall|a: int, b: int|
            0 <= a < self@.len() && 0 <= b < self@.len() && a != b implies (
            #[trigger] self@[a]).index.id@ != (#[trigger] self@[b]).index.id@ by {
            assert(self@[a].index.id@ == old(self)@[a].index.id@);
            assert(self@[b].index.id@ == old(self)@[b].index.id@);
        }
    }

    /// Applies a worker's success report to its gallery. An unknown id is
    /// refused and leaves the store as it was.
    pub fn report(&mut self, form: GalleryCrawlReportForm) -> (r: Result<(), LiveDirectoryError>)
        requires
            old(self).wf(),
        ensures
            final(self).wf(),
            final(self).spec_config() == old(self).spec_config(),
            !has_id(old(self)@, form.id@) ==> r == Err::<(), LiveDirectoryError>(
                LiveDirectoryError::NotFound,
            ) && final(self)@ == old(self)@,
            has_id(old(self)@, form.id@) ==> r is Ok && final(self)@ == update_id(
                old(self)@,
                form.id@,
                |g: GalleryState| after_report(old(self).spec_config(), g, form),
            ),
    {
        match self.position(form.id.as_str()) {
            None => Err(LiveDirectoryError::NotFound),
            Some(i) => {
                let cur = &self.galleries[i];
                let d = self.config.estimate_publish_duration(
                    form.last_crawled_at,
                    form.crawled_document_count,
                    cur,
                );
                proof {
                    lemma_estimate_bounded(
                        self.config,
                        form.last_crawled_at,
                        form.crawled_document_count as nat,
                        *cur,
                    );
                }
                let last_id = match (cur.last_crawled_document_id, form.last_crawled_document_id) {
                    (Some(x), Some(y)) => if x >= y {
                        Some(x)
                    } else {
                        Some(y)
                    },
                    (Some(x), None) => Some(x),
                    (None, b) => b,
                };
                let g = GalleryState {
                    index: cur.index.copied(),
                    last_ranked: cur.last_ranked,
                    last_crawled_at: form.last_crawled_at,
                    last_crawled_document_id: last_id,
                    visible: cur.visible,
                    last_error: cur.last_error,
                    publish_duration_millis: Some(d),
                    last_published_at: if form.crawled_document_count > 0 {
                        form.last_crawled_at
                    } else {
                        cur.last_published_at
                    },
                    registered_at: cur.registered_at,
                };
                proof {
                    let ghost cfg = self.config;
                    assert(g == after_report(cfg, self@[i as int], form));
                    Self::lemma_update_at(
                        self@,
                        i as int,
                        form.id@,
                        |g: GalleryState| after_report(cfg, g, form),
                    );
                }
                self.replace_at(i, g);
                Ok(())
            },
        }
    }

    /// Applies a worker's error report to its gallery. An unknown id is
    /// refused and leaves the store as it was.
    pub fn error_report(&mut self, form: GalleryCrawlErrorReportForm) -> (r: Result<
        (),
        LiveDirectoryError,
    >)
        requires
            old(self).wf(),
        ensures
            final(self).wf(),
            final(self).spec_config() == old(self).spec_config(),
            !has_id(old(self)@, form.id@) ==> r == Err::<(), LiveDirectoryError>(
                LiveDirectoryError::NotFound,
            ) && final(self)@ == old(self)@,
            has_id(old(self)@, form.id@) ==> r is Ok && final(self)@ == update_id(
                old(self)@,
                form.id@,
                |g: GalleryState| after_error_report(old(self).spec_config(), g, form),
            ),
    {
        match self.position(form.id.as_str()) {
            None => Err(LiveDirectoryError::NotFound),
            Some(i) => {
                let cur = &self.galleries[i];
                let d = self.config.estimate_publish_duration(form.last_crawled_at, 0, cur);
                proof {
                    lemma_estimate_bounded(self.config, form.last_crawled_at, 0, *cur);
                }
                let hide = match form.error {
                    CrawlerErrorReport::PageNotFound => true,
                    CrawlerErrorReport::MinorGalleryClosed => true,
                    CrawlerErrorReport::MinorGalleryPromoted => true,
                    CrawlerErrorReport::AdultPage => true,
                    _ => false,
                };
                let g = GalleryState {
                    index: cur.index.copied(),
                    last_ranked: cur.last_ranked,
                    last_crawled_at: form.last_crawled_at,
                    last_crawled_document_id: cur.last_crawled_document_id,
                    visible: if hide {
                        false
                    } else {
                        cur.visible
                    },
                    last_error: Some(form.error),
                    publish_duration_millis: Some(d),
                    last_published_at: cur.last_published_at,
                    registered_at: cur.registered_at,
                };
                proof {
                    let ghost cfg = self.config;
                    assert(g == after_error_report(cfg, self@[i as int], form));
                    Self::lemma_update_at(
                        self@,
                        i as int,
                        form.id@,
                        |g: GalleryState| after_error_report(cfg, g, form),
                    );
                }
                self.replace_at(i, g);
                Ok(())
            },
        }
    }

    proof fn lemma_push_fresh(s: Seq<GalleryState>, g: GalleryState)
        requires
            ids_unique(s),
            durations_bounded(s),
            !has_id(s, g.index.id@),
            duration_or_zero(g) <= LONG_CAP_MILLIS,
        ensures
            ids_unique(s.push(g)),
            durations_bounded(s.push(g)),
            has_id(s.push(g), g.index.id@),
    {
        let t = s.push(g);
        assert(t[s.len() as int] == g);
        assert forall|a: int, b: int|
            0 <= a < t.len() && 0 <= b < t.len() && a != b implies (
            #[trigger] t[a]).index.id@ != (#[trigger] t[b]).index.id@ by {
            if a < s.len() && b < s.len() {
                assert(t[a] == s[a] && t[b] == s[b]);
            } else if a < s.len() {
                assert(t[a] == s[a]);
            } else {
                assert(t[b] == s[b]);
            }
        }
        assert forall|a: int| 0 <= a < t.len() implies duration_or_zero(#[trigger] t[a])
            <= LONG_CAP_MILLIS by {
            if a < s.len() {
                assert(t[a] == s[a]);
            }
        }
    }

    /// A stored record with its estimate cut to a day, the most the
    /// estimator ever yields.
    pub open spec fn restored(g: GalleryState) -> GalleryState {
        if duration_or_zero(g) <= LONG_CAP_MILLIS {
            g
        } else {
            GalleryState { publish_duration_millis: Some(LONG_CAP_MILLIS as i64), ..g }
        }
    }

    /// Takes in a record read back from storage. A record whose id is
    /// already known is refused and changes nothing.
    pub fn restore(&mut self, g: GalleryState) -> (r: bool)
        requires
            old(self).wf(),
        ensures
            final(self).wf(),
            final(self).spec_config() == old(self).spec_config(),
            r == !has_id(old(self)@, g.index.id@),
            r ==> final(self)@ == old(self)@.push(Self::restored(g)),
            !r ==> final(self)@ == old(self)@,
    {
        match self.position(g.index.id.as_str()) {
            Some(_) => false,
            None => {
                let mut g = g;
                let too_long = match g.publish_duration_millis {
                    Some(d) => d > LONG_CAP_MILLIS as i64,
                    None => false,
                };
                if too_long {
                    g.publish_duration_millis = Some(LONG_CAP_MILLIS as i64);
                }
                proof {
                    Self::lemma_push_fresh(self@, g);
                }
                self.galleries.push(g);
                true
            },
        }
    }

    /// Records a sighting of `index` in the realtime-hot feed at `now`: a new
    /// gallery is registered; a known one is shown again, re-indexed, and its
    /// publish rate measured afresh.
    pub fn sight_hot(&mut self, index: GalleryIndex, now: Timestamp)
        requires
            old(self).wf(),
        ensures
            final(self).wf(),
            final(self).spec_config() == old(self).spec_config(),
            final(self)@ == sighted_hot(old(self)@, index, now),
    {
        match self.position(index.id.as_str()) {
            Some(i) => {
                let cur = &self.galleries[i];
                let g = GalleryState {
                    index: index.copied(),
                    last_ranked: now,
                    last_crawled_at: cur.last_crawled_at,
                    last_crawled_document_id: cur.last_crawled_document_id,
                    visible: true,
                    last_error: cur.last_error,
                    publish_duration_millis: None,
                    last_published_at: None,
                    registered_at: cur.registered_at,
                };
                proof {
                    assert(g == after_hot_sighting(self@[i as int], index, now));
                    Self::lemma_update_at(
                        self@,
                        i as int,
                        index.id@,
                        |g: GalleryState| after_hot_sighting(g, index, now),
                    );
                }
                self.replace_at(i, g);
            },
            None => {
                let g = GalleryState {
                    index,
                    last_ranked: now,
                    last_crawled_at: None,
                    last_crawled_document_id: None,
                    visible: true,
                    last_error: None,
                    publish_duration_millis: None,
                    last_published_at: None,
                    registered_at: Some(now),
                };
                proof {
                    Self::lemma_push_fresh(self@, g);
                }
                self.galleries.push(g);
            },
        }
    }

    /// Records a sighting of `index` in the weekly-hot feed at `now`: a new
    /// gallery is registered; a known one is left as it is.
    pub fn sight_weekly(&mut self, index: GalleryIndex, now: Timestamp)
        requires
            old(self).wf(),
        ensures
            final(self).wf(),
            final(self).spec_config() == old(self).spec_config(),
            final(self)@ == sighted_weekly(old(self)@, index, now),
    {
        match self.position(index.id.as_str()) {
            Some(_) => {},
            None => {
                let g = fresh(index, now);
                proof {
                    Self::lemma_push_fresh(self@, g);
                }
                self.galleries.push(g);
            },
        }
    }

    /// Takes in one round of the rank feeds at `now`: every realtime-hot
    /// entry in order, then every weekly-hot entry.
    pub fn update(&mut self, hot: &Vec<GalleryIndex>, weekly: &Vec<GalleryIndex>, now: Timestamp)
        requires
            old(self).wf(),
        ensures
            final(self).wf(),
            final(self).spec_config() == old(self).spec_config(),
            final(self)@ == all_sighted_weekly(all_sighted_hot(old(self)@, hot@, now), weekly@, now),
    {
        let ghost start = self@;
        let mut i: usize = 0;
        while i < hot.len()
            invariant
                self.wf(),
                self.spec_config() == old(self).spec_config(),
                start == old(self)@,
                i <= hot@.len(),
                self@ == all_sighted_hot(start, hot@.subrange(0, i as int), now),
            decreases hot@.len() - i,
        {
            assert(hot@.subrange(0, i + 1).drop_last() =~= hot@.subrange(0, i as int));
            self.sight_hot(hot[i].copied(), now);
            i = i + 1;
        }
        assert(hot@.subrange(0, hot@.len() as int) =~= hot@);
        let ghost mid = self@;
        let mut j: usize = 0;
        while j < weekly.len()
            invariant
                self.wf(),
                self.spec_config() == old(self).spec_config(),
                j <= weekly@.len(),
                self@ == all_sighted_weekly(mid, weekly@.subrange(0, j as int), now),
            decreases weekly@.len() - j,
        {
            assert(weekly@.subrange(0, j + 1).drop_last() =~= weekly@.subrange(0, j as int));
            self.sight_weekly(weekly[j].copied(), now);
            j = j + 1;
        }
        assert(weekly@.subrange(0, weekly@.len() as int) =~= weekly@);
    }

    /// Fills in the registration time of every record that lacks one; the
    /// one schema upgrade, run at start-up.
    pub fn upgrade_db(&mut self, now: Timestamp)
        requires
            old(self).wf(),
        ensures
            final(self).wf(),
            final(self).spec_config() == old(self).spec_config(),
            final(self)@ == old(self)@.map_values(|g: GalleryState| backfilled(g, now)),
    {
        let mut i: usize = 0;
        while i < self.galleries.len()
            invariant
                self.wf(),
                self.spec_config() == old(self).spec_config(),
                i <= self@.len(),
                self@.len() == old(self)@.len(),
                forall|k: int| 0 <= k < i ==> #[trigger] self@[k] == backfilled(old(self)@[k], now),
                forall|k: int| i <= k < self@.len() ==> #[trigger] self@[k] == old(self)@[k],
            decreases self@.len() - i,
        {
            if self.galleries[i].registered_at.is_none() {
                let cur = &self.galleries[i];
                let g = GalleryState {
                    index: cur.index.copied(),
                    last_ranked: cur.last_ranked,
                    last_crawled_at: cur.last_crawled_at,
                    last_crawled_document_id: cur.last_crawled_document_id,
                    visible: cur.visible,
                    last_error: cur.last_error,
                    publish_duration_millis: cur.publish_duration_millis,
                    last_published_at: cur.last_published_at,
                    registered_at: Some(now),
                };
                self.replace_at(i, g);
            }
            i = i + 1;
        }
        assert(self@ =~= old(self)@.map_values(|g: GalleryState| backfilled(g, now)));
    }

    /// The records of shard `part` of `total` that are visible and due at
    /// `now`, in store order.
    pub fn list_part(&self, total: u64, part: u64, now: Timestamp) -> (r: Vec<GalleryState>)
        requires
            self.wf(),
            total > 0,
        ensures
            r@ == shard_listing(self.spec_config(), self@, total, part, now),
    {
        let mut out: Vec<GalleryState> = Vec::new();
        let mut i: usize = 0;
        while i < self.galleries.len()
            invariant
                total > 0,
                i <= self@.len(),
                out@ == self@.subrange(0, i as int).filter(
                    listing_pred(self.spec_config(), total, part, now),
                ),
            decreases self@.len() - i,
        {
            let g = &self.galleries[i];
            let keep = hash(g.index.id.as_str()) % total == part && g.visible
                && self.config.is_eligible(g, now);
            proof {
                let ghost pred = listing_pred(self.spec_config(), total, part, now);
                assert(self@.subrange(0, i + 1).drop_last() =~= self@.subrange(0, i as int));
                assert(self@.subrange(0, i + 1).last() == self@[i as int]);
                reveal(Seq::filter);
                assert(keep == pred(self@[i as int]));
            }
            if keep {
                out.push(g.copied());
            }
            i = i + 1;
        }
        assert(self@.subrange(0, self@.len() as int) =~= self@);
        out
    }
}

/// A record for a gallery first seen at `now`, visible and with no timings.
pub fn fresh(index: GalleryIndex, now: Timestamp) -> (r: GalleryState)
    ensures
        r == fresh_state(index, now),
{
    GalleryState {
        index,
        last_ranked: now,
        last_crawled_at: None,
        last_crawled_document_id: None,
        visible: true,
        last_error: None,
        publish_duration_millis: None,
        last_published_at: None,
        registered_at: Some(now),
    }
}

pub open spec fn sighted_hot(s: Seq<GalleryState>, index: GalleryIndex, now: Timestamp) -> Seq<GalleryState> {
    if has_id(s, index.id@) {
        update_id(s, index.id@, |g: GalleryState| after_hot_sighting(g, index, now))
    } else {
        s.push(fresh_state(index, now))
    }
}

pub open spec fn sighted_weekly(s: Seq<GalleryState>, index: GalleryIndex, now: Timestamp) -> Seq<GalleryState> {
    if has_id(s, index.id@) {
        s
    } else {
        s.push(fresh_state(index, now))
    }
}

pub open spec fn all_sighted_hot(s: Seq<GalleryState>, idx: Seq<GalleryIndex>, now: Timestamp) -> Seq<GalleryState>
    decreases idx.len(),
{
    if idx.len() == 0 {
        s
    } else {
        sighted_hot(all_sighted_hot(s, idx.drop_last(), now), idx.last(), now)
    }
}

pub open spec fn all_sighted_weekly(s: Seq<GalleryState>, idx: Seq<GalleryIndex>, now: Timestamp) -> Seq<GalleryState>
    decreases idx.len(),
{
    if idx.len() == 0 {
        s
    } else {
        sighted_weekly(all_sighted_weekly(s, idx.drop_last(), now), idx.last(), now)
    }
}

// ---------------------------------------------------------------------------
// Laws

/// A success report never lowers a gallery's last crawled post id.
pub proof fn lemma_report_keeps_document_id_monotone(
    cfg: DirectoryConfig,
    s: GalleryState,
    f: GalleryCrawlReportForm,
)
    ensures
        s.last_crawled_document_id is Some ==> after_report(cfg, s, f).last_crawled_document_id is Some
            && after_report(cfg, s, f).last_crawled_document_id->0
            >= s.last_crawled_document_id->0,
{
}

/// A hidden gallery is served in no shard.
pub proof fn lemma_hidden_never_listed(
    cfg: DirectoryConfig,
    s: Seq<GalleryState>,
    total: u64,
    part: u64,
    now: Timestamp,
    g: GalleryState,
)
    requires
        !g.visible,
    ensures
        !shard_listing(cfg, s, total, part, now).contains(g),
{
    if shard_listing(cfg, s, total, part, now).contains(g) {
        s.lemma_filter_contains_rev(listing_pred(cfg, total, part, now), g);
    }
}

/// Reports never show a hidden gallery again: only a realtime-hot sighting
/// does.
pub proof fn lemma_reports_keep_hidden(
    cfg: DirectoryConfig,
    s: GalleryState,
    f: GalleryCrawlReportForm,
    e: GalleryCrawlErrorReportForm,
)
    requires
        !s.visible,
    ensures
        !after_report(cfg, s, f).visible,
        !after_error_report(cfg, s, e).visible,
{
}

/// The shard listings partition the visible, due galleries: each such
/// gallery is served in exactly the shard its id hashes to, and nothing else
/// is served anywhere.
pub proof fn lemma_shards_partition(
    cfg: DirectoryConfig,
    s: Seq<GalleryState>,
    total: u64,
    now: Timestamp,
)
    requires
        total > 0,
    ensures
        forall|g: GalleryState|
            s.contains(g) && g.visible && cfg.eligible(g, now) ==> 0 <= shard_of(g.index.id@, total)
                < total && #[trigger] shard_listing(
                cfg,
                s,
                total,
                shard_of(g.index.id@, total) as u64,
                now,
            ).contains(g),
        forall|part: u64, g: GalleryState|
            #[trigger] shard_listing(cfg, s, total, part, now).contains(g) ==> s.contains(g)
                && g.visible && cfg.eligible(g, now) && shard_of(g.index.id@, total) == part,
{
    assert forall|g: GalleryState|
        s.contains(g) && g.visible && cfg.eligible(g, now) implies 0 <= shard_of(g.index.id@, total)
        < total && #[trigger] shard_listing(
        cfg,
        s,
        total,
        shard_of(g.index.id@, total) as u64,
        now,
    ).contains(g) by {
        let part = shard_of(g.index.id@, total) as u64;
        let pred = listing_pred(cfg, total, part, now);
        let i = choose|i: int| 0 <= i < s.len() && s[i] == g;
        assert(pred(g));
        s.lemma_filter_contains(pred, i);
    }
    assert forall|part: u64, g: GalleryState|
        #[trigger] shard_listing(cfg, s, total, part, now).contains(g) implies s.contains(g)
        && g.visible && cfg.eligible(g, now) && shard_of(g.index.id@, total) == part by {
        s.lemma_filter_contains_rev(listing_pred(cfg, total, part, now), g);
    }
}

/// A well-formed directory's publish-duration estimates stay within a day.
pub proof fn lemma_publish_duration_bounded(d: &Directory, cfg: DirectoryConfig, at: Option<Timestamp>, count: nat)
    requires
        d.wf(),
        cfg.wf(),
    ensures
        forall|i: int|
            0 <= i < d@.len() ==> duration_or_zero(#[trigger] d@[i]) <= LONG_CAP_MILLIS && estimate(
                cfg,
                at,
                count,
                d@[i],
            ) <= LONG_CAP_MILLIS,
{
    assert forall|i: int| 0 <= i < d@.len() implies duration_or_zero(#[trigger] d@[i])
        <= LONG_CAP_MILLIS && estimate(cfg, at, count, d@[i]) <= LONG_CAP_MILLIS by {
        lemma_estimate_bounded(cfg, at, count, d@[i]);
    }
}

/// Replaying a success report leaves the last crawled post id, the crawl
/// time and the publication time where the first delivery put them.
pub proof fn lemma_report_replay(cfg: DirectoryConfig, s: GalleryState, f: GalleryCrawlReportForm)
    ensures
        after_report(cfg, after_report(cfg, s, f), f).last_crawled_document_id == after_report(
            cfg,
            s,
            f,
        ).last_crawled_document_id,
        after_report(cfg, after_report(cfg, s, f), f).last_crawled_at == after_report(
            cfg,
            s,
            f,
        ).last_crawled_at,
        after_report(cfg, after_report(cfg, s, f), f).last_published_at == after_report(
            cfg,
            s,
            f,
        ).last_published_at,
        after_report(cfg, after_report(cfg, s, f), f).publish_duration_millis == Some(
            estimate(cfg, f.last_crawled_at, f.crawled_document_count as nat, after_report(cfg, s, f))
                as i64,
        ),
{
}

/// Back-filling registration times twice is the same as doing it once.
pub proof fn lemma_upgrade_idempotent(s: Seq<GalleryState>, now: Timestamp)
    ensures
        s.map_values(|g: GalleryState| backfilled(g, now)).map_values(
            |g: GalleryState| backfilled(g, now),
        ) == s.map_values(|g: GalleryState| backfilled(g, now)),
{
    assert(s.map_values(|g: GalleryState| backfilled(g, now)).map_values(
        |g: GalleryState| backfilled(g, now),
    ) =~= s.map_values(|g: GalleryState| backfilled(g, now)));
}

/// Visible and due at `now`.
pub open spec fn due(cfg: DirectoryConfig, now: Timestamp) -> spec_fn(GalleryState) -> bool {
    |g: GalleryState| g.visible && cfg.eligible(g, now)
}

/// With two shards, the two listings together hold every visible, due
/// gallery exactly once: their lengths add up to the number of such
/// galleries and no id is in both.
pub proof fn lemma_two_shards_cover(cfg: DirectoryConfig, s: Seq<GalleryState>, now: Timestamp)
    ensures
        shard_listing(cfg, s, 2, 0, now).len() + shard_listing(cfg, s, 2, 1, now).len() == s.filter(
            due(cfg, now),
        ).len(),
        forall|g: GalleryState, h: GalleryState|
            shard_listing(cfg, s, 2, 0, now).contains(g) && shard_listing(cfg, s, 2, 1, now).contains(h)
                ==> g.index.id@ != h.index.id@,
    decreases s.len(),
{
    reveal(Seq::filter);
    if s.len() > 0 {
        lemma_two_shards_cover(cfg, s.drop_last(), now);
        let g = s.last();
        assert(shard_of(g.index.id@, 2) == 0 || shard_of(g.index.id@, 2) == 1);
    }
    assert forall|g: GalleryState, h: GalleryState|
        shard_listing(cfg, s, 2, 0, now).contains(g) && shard_listing(cfg, s, 2, 1, now).contains(h)
            implies g.index.id@ != h.index.id@ by {
        s.lemma_filter_contains_rev(listing_pred(cfg, 2, 0, now), g);
        s.lemma_filter_contains_rev(listing_pred(cfg, 2, 1, now), h);
    }
}

/// A record just ranked at `now` and not yet crawled: shown, unmeasured,
/// registered at `now`.
pub open spec fn just_ranked(g: GalleryState, now: Timestamp) -> bool {
    g.visible && g.last_published_at is None && g.publish_duration_millis is None && g.registered_at
        == Some(now)
}

proof fn lemma_just_ranked_due(cfg: DirectoryConfig, g: GalleryState, now: Timestamp)
    requires
        just_ranked(g, now),
    ensures
        due(cfg, now)(g),
{
    assert(cfg.wait_millis(g) <= 0);
}

proof fn lemma_hot_sightings_just_ranked(s: Seq<GalleryState>, idx: Seq<GalleryIndex>, now: Timestamp)
    requires
        forall|i: int| 0 <= i < s.len() ==> just_ranked(#[trigger] s[i], now),
    ensures
        forall|i: int|
            0 <= i < all_sighted_hot(s, idx, now).len() ==> just_ranked(
                #[trigger] all_sighted_hot(s, idx, now)[i],
                now,
            ),
    decreases idx.len(),
{
    if idx.len() > 0 {
        lemma_hot_sightings_just_ranked(s, idx.drop_last(), now);
        let t = all_sighted_hot(s, idx.drop_last(), now);
        let u = sighted_hot(t, idx.last(), now);
        assert forall|i: int| 0 <= i < u.len() implies just_ranked(#[trigger] u[i], now) by {
            if has_id(t, idx.last().id@) {
            } else if i < t.len() {
                assert(u[i] == t[i]);
            }
        }
    }
}

proof fn lemma_all_due_filter(cfg: DirectoryConfig, s: Seq<GalleryState>, now: Timestamp)
    requires
        forall|i: int| 0 <= i < s.len() ==> due(cfg, now)(#[trigger] s[i]),
    ensures
        s.filter(due(cfg, now)).len() == s.len(),
    decreases s.len(),
{
    reveal(Seq::filter);
    if s.len() > 0 {
        assert forall|i: int| 0 <= i < s.drop_last().len() implies due(cfg, now)(
            #[trigger] s.drop_last()[i],
        ) by {
            assert(s.drop_last()[i] == s[i]);
        }
        lemma_all_due_filter(cfg, s.drop_last(), now);
        assert(due(cfg, now)(s[s.len() - 1]));
    }
}

/// After rank feeds at `now` fill an empty directory, the two shard
/// listings at `now` together hold every gallery, each once.
pub proof fn lemma_fresh_directory_two_shards(cfg: DirectoryConfig, hot: Seq<GalleryIndex>, now: Timestamp)
    ensures
        ({
            let s = all_sighted_hot(Seq::empty(), hot, now);
            &&& shard_listing(cfg, s, 2, 0, now).len() + shard_listing(cfg, s, 2, 1, now).len()
                == s.len()
            &&& forall|g: GalleryState, h: GalleryState|
                shard_listing(cfg, s, 2, 0, now).contains(g) && shard_listing(
                    cfg,
                    s,
                    2,
                    1,
                    now,
                ).contains(h) ==> g.index.id@ != h.index.id@
        }),
{
    let s = all_sighted_hot(Seq::empty(), hot, now);
    lemma_hot_sightings_just_ranked(Seq::empty(), hot, now);
    assert forall|i: int| 0 <= i < s.len() implies due(cfg, now)(#[trigger] s[i]) by {
        lemma_just_ranked_due(cfg, s[i], now);
    }
    lemma_all_due_filter(cfg, s, now);
    lemma_two_shards_cover(cfg, s, now);
}

/// A realtime-hot sighting shows a known gallery again, whatever hid it:
/// the record is visible with its rate unmeasured, and, registered no later
/// than `now`, it is served again in its shard at `now`.
pub proof fn lemma_hot_sighting_restores(
    cfg: DirectoryConfig,
    s: Seq<GalleryState>,
    index: GalleryIndex,
    now: Timestamp,
    total: u64,
    i: int,
)
    requires
        total > 0,
        0 <= i < s.len(),
        s[i].index.id@ == index.id@,
        s[i].registered_at is None || s[i].registered_at->0 <= now,
    ensures
        ({
            let t = sighted_hot(s, index, now);
            &&& t[i].visible
            &&& t[i].last_published_at is None
            &&& t[i].publish_duration_millis is None
            &&& shard_listing(cfg, t, total, shard_of(index.id@, total) as u64, now).contains(t[i])
        }),
{
    let t = sighted_hot(s, index, now);
    assert(has_id(s, index.id@));
    assert(t[i] == after_hot_sighting(s[i], index, now));
    assert(cfg.wait_millis(t[i]) <= 0);
    let part = shard_of(index.id@, total) as u64;
    assert(listing_pred(cfg, total, part, now)(t[i]));
    t.lemma_filter_contains(listing_pred(cfg, total, part, now), i);
}

} // verus!
