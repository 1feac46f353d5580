//! The two-phase, rate-limited orchestration of the crawl, as a state
//! machine: every decision the pipeline takes is a verified step from state
//! and event to next state and actions, and the caller's loop only performs
//! the actions (fetch, wait, write) and hands back their outcomes.
//!
//! Failure policy is uniform: a failed first page aborts the run before any
//! output; a failed later listing page contributes zero listings; a failed
//! detail fetch skips just that item. Every detail fetch and every listing
//! fetch after the first is preceded by one pacing wait.
use vstd::prelude::*;

use crate::records::{PartData, PartWithDetails, PartWithDetailsView};

verus! {

/// Where the pipeline stands.
pub enum PipelineState {
    /// Page 1 is being fetched; a failure here aborts the run.
    FetchingFirstPage,
    /// The items of `page` are being enriched one by one: `pending` holds
    /// the items still to fetch, `batch` the records already built.
    FetchingDetails { page: i32, total: i32, pending: Vec<PartData>, batch: Vec<PartWithDetails> },
    /// The next listing page is being fetched.
    FetchingPage { page: i32, total: i32 },
    /// All pages are processed.
    Done,
    /// The run ended early on an unrecoverable error.
    Aborted,
}

/// What the caller's loop reports back.
pub enum PipelineEvent {
    /// Page 1 arrived: its summary records, and the page count its
    /// pagination control showed, if any.
    FirstPageLoaded { parts: Vec<PartData>, detected_pages: Option<i32> },
    /// Page 1 could not be fetched, retries included.
    FirstPageFailed,
    /// A later listing page arrived.
    PageLoaded { parts: Vec<PartData> },
    /// A later listing page could not be fetched, retries included.
    PageFailed,
    /// A detail page arrived and was extracted.
    DetailLoaded { detail: PartWithDetails },
    /// A detail page could not be fetched, retries included.
    DetailFailed,
}

/// What the caller's loop must do next.
pub enum PipelineAction {
    /// Fetch a listing page, without pacing (only page 1).
    FetchListing { page: i32 },
    /// Wait one pacing interval, then fetch a listing page.
    WaitThenFetchListing { page: i32 },
    /// Wait one pacing interval, then fetch the item's detail page by the
    /// stock-revealing form submission.
    WaitThenFetchDetail { part: PartData },
    /// Append the batch to the sink.
    WriteBatch { batch: Vec<PartWithDetails> },
    /// The run is complete.
    Finish,
    /// The run is aborted; nothing more follows.
    Abort,
}

/// The page count a run works with: a caller override takes precedence over
/// the detected count, and without either the run covers page 1 alone.
pub open spec fn spec_resolved_total(limit: Option<i32>, detected: Option<i32>) -> int {
    match limit {
        Some(l) => l as int,
        None => match detected {
            Some(d) => d as int,
            None => 0,
        },
    }
}

/// The machine moved past a finished page: on to the next page when one
/// remains, else done.
pub open spec fn spec_advance_ok(page: int, total: int, st: PipelineState, acts: Seq<
    PipelineAction,
>) -> bool {
    if page < total {
        &&& st matches PipelineState::FetchingPage { page: p2, total: t2 } && p2 == page + 1 && t2
            == total
        &&& acts.len() == 1
        &&& acts[0] matches PipelineAction::WaitThenFetchListing { page: p3 } && p3 == page + 1
    } else {
        &&& st == PipelineState::Done
        &&& acts == seq![PipelineAction::Finish]
    }
}

/// The machine entered the detail phase of a page: with items left it asks
/// for the first one's detail page; with none it writes the batch and moves
/// past the page.
pub open spec fn spec_enter_details(
    page: int,
    total: int,
    parts: Seq<PartData>,
    written: Seq<PartWithDetails>,
    st: PipelineState,
    acts: Seq<PipelineAction>,
) -> bool {
    if parts.len() == 0 {
        &&& acts.len() >= 1
        &&& acts[0] matches PipelineAction::WriteBatch { batch: b } && b@ == written
        &&& spec_advance_ok(page, total, st, acts.skip(1))
    } else {
        &&& st matches PipelineState::FetchingDetails { page: p2, total: t2, pending: pd, batch: b }
            && p2 == page && t2 == total && pd@ == parts && b@ == written
        &&& acts.len() == 1
        &&& acts[0] matches PipelineAction::WaitThenFetchDetail { part: p } && p == parts[0]
    }
}

/// The machine aborted.
pub open spec fn spec_aborted(st: PipelineState, acts: Seq<PipelineAction>) -> bool {
    &&& st == PipelineState::Aborted
    &&& acts == seq![PipelineAction::Abort]
}

/// The initial state and the first action: fetch page 1, without pacing.
pub fn start() -> (r: (PipelineState, Vec<PipelineAction>))
    ensures
        r.0 == PipelineState::FetchingFirstPage,
        r.1@ == seq![(PipelineAction::FetchListing { page: 1i32 })],
{
    let mut acts: Vec<PipelineAction> = Vec::new();
    acts.push(PipelineAction::FetchListing { page: 1 });
    proof {
        assert(acts@ =~= seq![(PipelineAction::FetchListing { page: 1i32 })]);
    }
    (PipelineState::FetchingFirstPage, acts)
}

fn aborted_step() -> (r: (PipelineState, Vec<PipelineAction>))
    ensures
        spec_aborted(r.0, r.1@),
{
    let mut acts: Vec<PipelineAction> = Vec::new();
    acts.push(PipelineAction::Abort);
    proof {
        assert(acts@ =~= seq![PipelineAction::Abort]);
    }
    (PipelineState::Aborted, acts)
}

fn advance(page: i32, total: i32) -> (r: (PipelineState, Vec<PipelineAction>))
    ensures
        spec_advance_ok(page as int, total as int, r.0, r.1@),
{
    if page < total {
        let mut acts: Vec<PipelineAction> = Vec::new();
        acts.push(PipelineAction::WaitThenFetchListing { page: page + 1 });
        (PipelineState::FetchingPage { page: page + 1, total }, acts)
    } else {
        let mut acts: Vec<PipelineAction> = Vec::new();
        acts.push(PipelineAction::Finish);
        proof {
            assert(acts@ =~= seq![PipelineAction::Finish]);
        }
        (PipelineState::Done, acts)
    }
}

fn enter_details(page: i32, total: i32, parts: Vec<PartData>, written: Vec<PartWithDetails>) -> (r:
    (PipelineState, Vec<PipelineAction>))
    ensures
        spec_enter_details(page as int, total as int, parts@, written@, r.0, r.1@),
{
    if parts.len() == 0 {
        let (st, mut tail) = advance(page, total);
        let ghost tail0 = tail@;
        let mut acts: Vec<PipelineAction> = Vec::new();
        acts.push(PipelineAction::WriteBatch { batch: written });
        acts.append(&mut tail);
        proof {
            assert(acts@.skip(1) =~= tail0);
        }
        (st, acts)
    } else {
        let first = parts[0].duplicate();
        let mut acts: Vec<PipelineAction> = Vec::new();
        acts.push(PipelineAction::WaitThenFetchDetail { part: first });
        (
            PipelineState::FetchingDetails { page, total, pending: parts, batch: written },
            acts,
        )
    }
}

/// One decision of the pipeline: from the current state and the event the
/// caller's loop reported, to the next state and the actions to perform.
/// An event that its state cannot answer aborts the run.
pub fn step(state: PipelineState, event: PipelineEvent, page_limit: Option<i32>) -> (r: (
    PipelineState,
    Vec<PipelineAction>,
))
    ensures
        match (state, event) {
            (
                PipelineState::FetchingFirstPage,
                PipelineEvent::FirstPageLoaded { parts, detected_pages },
            ) => spec_enter_details(
                1,
                spec_resolved_total(page_limit, detected_pages),
                parts@,
                Seq::empty(),
                r.0,
                r.1@,
            ),
            (PipelineState::FetchingFirstPage, PipelineEvent::FirstPageFailed) => spec_aborted(
                r.0,
                r.1@,
            ),
            (
                PipelineState::FetchingDetails { page, total, pending, batch },
                PipelineEvent::DetailLoaded { detail },
            ) => if pending@.len() == 0 {
                spec_aborted(r.0, r.1@)
            } else {
                spec_enter_details(
                    page as int,
                    total as int,
                    pending@.skip(1),
                    batch@.push(detail),
                    r.0,
                    r.1@,
                )
            },
            (
                PipelineState::FetchingDetails { page, total, pending, batch },
                PipelineEvent::DetailFailed,
            ) => if pending@.len() == 0 {
                spec_aborted(r.0, r.1@)
            } else {
                spec_enter_details(page as int, total as int, pending@.skip(1), batch@, r.0, r.1@)
            },
            (
                PipelineState::FetchingPage { page, total },
                PipelineEvent::PageLoaded { parts },
            ) => spec_enter_details(page as int, total as int, parts@, Seq::empty(), r.0, r.1@),
            (PipelineState::FetchingPage { page, total }, PipelineEvent::PageFailed) =>
                spec_enter_details(
                page as int,
                total as int,
                Seq::empty(),
                Seq::empty(),
                r.0,
                r.1@,
            ),
            _ => spec_aborted(r.0, r.1@),
        },
{
    match (state, event) {
        (
            PipelineState::FetchingFirstPage,
            PipelineEvent::FirstPageLoaded { parts, detected_pages },
        ) => {
            let total = resolve_page_count(page_limit, detected_pages);
            enter_details(1, total, parts, Vec::new())
        },
        (PipelineState::FetchingFirstPage, PipelineEvent::FirstPageFailed) => aborted_step(),
        (
            PipelineState::FetchingDetails { page, total, mut pending, mut batch },
            PipelineEvent::DetailLoaded { detail },
        ) => {
            if pending.len() == 0 {
                aborted_step()
            } else {
                let ghost pending0 = pending@;
                pending.remove(0);
                batch.push(detail);
                proof {
                    assert(pending@ =~= pending0.skip(1));
                }
                enter_details(page, total, pending, batch)
            }
        },
        (
            PipelineState::FetchingDetails { page, total, mut pending, batch },
            PipelineEvent::DetailFailed,
        ) => {
            if pending.len() == 0 {
                aborted_step()
            } else {
                let ghost pending0 = pending@;
                pending.remove(0);
                proof {
                    assert(pending@ =~= pending0.skip(1));
                }
                enter_details(page, total, pending, batch)
            }
        },
        (PipelineState::FetchingPage { page, total }, PipelineEvent::PageLoaded { parts }) => {
            enter_details(page, total, parts, Vec::new())
        },
        (PipelineState::FetchingPage { page, total }, PipelineEvent::PageFailed) => {
            enter_details(page, total, Vec::new(), Vec::new())
        },
        (_, _) => aborted_step(),
    }
}

/// An equal copy of a listing, record by record.
fn duplicate_parts(v: &Vec<PartData>) -> (r: Vec<PartData>)
    ensures
        r@ == v@,
{
    let mut r: Vec<PartData> = Vec::new();
    let n = v.len();
    let mut i: usize = 0;
    while i < n
        invariant
            0 <= i <= n,
            n == v@.len(),
            r@ == v@.take(i as int),
        decreases n - i,
    {
        r.push(v[i].duplicate());
        proof {
            assert(r@ =~= v@.take(i + 1));
        }
        i = i + 1;
    }
    proof {
        assert(v@.take(n as int) =~= v@);
    }
    r
}

/// The rows of a whole run: every page's details, in page order, each page's
/// details in listing order.
pub open spec fn spec_rows(details: Seq<Vec<PartWithDetails>>) -> Seq<PartWithDetailsView>
    decreases details.len(),
{
    if details.len() == 0 {
        Seq::empty()
    } else {
        spec_rows(details.drop_last()) + details.last().deep_view()
    }
}

/// The id of item `k` of page `p` among the given details.
pub open spec fn spec_detail_id(details: Seq<Vec<PartWithDetails>>, p: int, k: int) -> Seq<char> {
    details[p]@[k]@.id
}

proof fn lemma_rows_decompose(details: Seq<Vec<PartWithDetails>>, i: int) -> (r: (int, int))
    requires
        0 <= i < spec_rows(details).len(),
    ensures
        0 <= r.0 < details.len(),
        0 <= r.1 < details[r.0]@.len(),
        i == spec_rows(details.take(r.0)).len() + r.1,
        spec_rows(details)[i] == details[r.0]@[r.1]@,
    decreases details.len(),
{
    let pre = spec_rows(details.drop_last());
    if i < pre.len() {
        let (p, k) = lemma_rows_decompose(details.drop_last(), i);
        assert(details.drop_last().take(p) =~= details.take(p));
        assert(spec_rows(details)[i] == pre[i]);
        (p, k)
    } else {
        let p = details.len() - 1;
        let k = i - pre.len();
        assert(details.take(p) =~= details.drop_last());
        assert(spec_rows(details)[i] == details.last().deep_view()[k]);
        (p, k)
    }
}

/// A run writes no duplicate ids: when the given details carry pairwise
/// distinct ids — as they do when each page's items are distinct and pages
/// do not repeat items — the rows of the run are pairwise distinct in id.
pub proof fn lemma_rows_distinct_ids(details: Seq<Vec<PartWithDetails>>)
    requires
        forall|p1: int, k1: int, p2: int, k2: int|
            0 <= p1 < details.len() && 0 <= k1 < details[p1]@.len() && 0 <= p2 < details.len()
                && 0 <= k2 < details[p2]@.len() && (p1 != p2 || k1 != k2)
                ==> #[trigger] spec_detail_id(details, p1, k1) != #[trigger] spec_detail_id(
                details,
                p2,
                k2,
            ),
    ensures
        forall|i: int, j: int|
            0 <= i < spec_rows(details).len() && 0 <= j < spec_rows(details).len() && i != j
                ==> (#[trigger] spec_rows(details)[i]).id != (#[trigger] spec_rows(details)[j]).id,
{
    assert forall|i: int, j: int|
        0 <= i < spec_rows(details).len() && 0 <= j < spec_rows(details).len() && i
            != j implies (#[trigger] spec_rows(details)[i]).id != (#[trigger] spec_rows(
        details,
    )[j]).id by {
        let (p1, k1) = lemma_rows_decompose(details, i);
        let (p2, k2) = lemma_rows_decompose(details, j);
        if p1 == p2 && k1 == k2 {
            assert(i == j);
        }
        assert(spec_detail_id(details, p1, k1) != spec_detail_id(details, p2, k2));
        assert(spec_rows(details)[i].id == spec_detail_id(details, p1, k1));
        assert(spec_rows(details)[j].id == spec_detail_id(details, p2, k2));
    }
}

/// A whole run of the pipeline, with every outcome given: page `p` (counted
/// from 1) lists `pages[p - 1]`, its pagination control shows the full page
/// count, and item `k` of that page extracts to `details[p - 1][k]`. The
/// machine is driven from `start` through `step`, and what its write actions
/// emit is returned.
///
/// The contract is the whole-run law: such a run writes exactly the given
/// details — one row per listed item across all pages, in page order, each
/// page's rows in listing order — and it is proved from `step`'s contract
/// alone. A live caller differs only in performing the fetch actions instead
/// of being handed their outcomes.
pub fn replay_run(pages: &Vec<Vec<PartData>>, details: &Vec<Vec<PartWithDetails>>) -> (rows: Vec<
    PartWithDetails,
>)
    requires
        1 <= pages@.len() <= i32::MAX,
        pages@.len() == details@.len(),
        forall|p: int| 0 <= p < pages@.len() ==> pages@[p]@.len() == details@[p]@.len(),
    ensures
        rows.deep_view() == spec_rows(details@),
{
    let n = pages.len();
    let total: i32 = n as i32;
    let (start_state, _first_actions) = start();
    let mut state = start_state;
    let mut rows: Vec<PartWithDetails> = Vec::new();
    let mut p: usize = 0;
    proof {
        assert(details@.take(0) =~= Seq::<Vec<PartWithDetails>>::empty());
        assert(rows.deep_view() =~= Seq::<PartWithDetailsView>::empty());
    }
    while p < n
        invariant
            0 <= p <= n,
            n == pages@.len(),
            n == details@.len(),
            1 <= n <= i32::MAX,
            total == n as i32,
            forall|q: int| 0 <= q < pages@.len() ==> pages@[q]@.len() == details@[q]@.len(),
            rows.deep_view() == spec_rows(details@.take(p as int)),
            p == 0 ==> state == PipelineState::FetchingFirstPage,
            0 < p < n ==> (state matches PipelineState::FetchingPage { page: pp, total: tt }
                && pp == p + 1 && tt == total),
        decreases n - p,
    {
        let parts: &Vec<PartData> = &pages[p];
        let dets: &Vec<PartWithDetails> = &details[p];
        let m = parts.len();
        let event = if p == 0 {
            PipelineEvent::FirstPageLoaded {
                parts: duplicate_parts(parts),
                detected_pages: Some(total),
            }
        } else {
            PipelineEvent::PageLoaded { parts: duplicate_parts(parts) }
        };
        let (listing_state, listing_acts) = step(state, event, None);
        state = listing_state;
        let mut acts = listing_acts;
        proof {
            assert(parts@.skip(0) =~= parts@);
            if m > 0 {
                assert(dets.deep_view().take(0) =~= Seq::<PartWithDetailsView>::empty());
            }
        }
        let mut k: usize = 0;
        while k < m
            invariant
                0 <= k <= m,
                m == parts@.len(),
                m == dets@.len(),
                total == n as i32,
                0 <= p < n <= i32::MAX,
                n == pages@.len(),
                parts == &pages@[p as int],
                dets == &details@[p as int],
                k < m ==> (state matches PipelineState::FetchingDetails {
                    page: pg,
                    total: tt,
                    pending: pd,
                    batch: b,
                } && pg == p + 1 && tt == total && pd@ == parts@.skip(k as int) && b.deep_view()
                    == dets.deep_view().take(k as int)),
                k == m ==> {
                    &&& acts@.len() >= 1
                    &&& acts@[0] matches PipelineAction::WriteBatch { batch: b } && b.deep_view()
                        == dets.deep_view()
                    &&& spec_advance_ok(p + 1, total as int, state, acts@.skip(1))
                },
            decreases m - k,
        {
            let detail = dets[k].duplicate();
            let ghost prev_pending = parts@.skip(k as int);
            let ghost prev_batch_dv = dets.deep_view().take(k as int);
            let (detail_state, detail_acts) = step(
                state,
                PipelineEvent::DetailLoaded { detail },
                None,
            );
            proof {
                assert(prev_pending.skip(1) =~= parts@.skip(k + 1));
            }
            state = detail_state;
            acts = detail_acts;
            proof {
                // the batch grew by this item's detail record
                assert(dets.deep_view().take(k as int).push(dets@[k as int]@) =~= dets.deep_view()
                    .take(k + 1));
                if k + 1 == m {
                    assert(dets.deep_view().take(k + 1) =~= dets.deep_view());
                }
            }
            k = k + 1;
        }
        // the machine wrote the page's batch and moved past the page
        let first_act = acts.remove(0);
        match first_act {
            PipelineAction::WriteBatch { mut batch } => {
                let ghost rows0 = rows.deep_view();
                rows.append(&mut batch);
                proof {
                    assert(rows.deep_view() =~= rows0 + dets.deep_view());
                    assert(details@.take(p + 1).drop_last() =~= details@.take(p as int));
                    assert(rows.deep_view() =~= spec_rows(details@.take(p + 1)));
                }
            },
            _ => {
                proof {
                    assert(false);
                }
            },
        }
        p = p + 1;
    }
    proof {
        assert(details@.take(n as int) =~= details@);
    }
    rows
}

/// The page count a run works with: a caller override takes precedence over
/// the count detected on page 1; without either the run covers page 1 alone.
pub fn resolve_page_count(limit: Option<i32>, detected: Option<i32>) -> (r: i32)
    ensures
        r as int == spec_resolved_total(limit, detected),
{
    match limit {
        Some(l) => l,
        None => match detected {
            Some(d) => d,
            None => 0,
        },
    }
}

} // verus!
