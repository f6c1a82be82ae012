//! What to render next.
//!
//! A single worker does all rendering. It is handed requests, and this module
//! decides which of them is rendered, which are dropped, and what becomes of a
//! finished page. It also keeps track of the render in progress, so that one
//! whose page has scrolled off screen can be aborted.

use std::collections::HashSet;

use vstd::prelude::*;
use vstd::string::*;

use crate::cache::{law_get_returns_what_was_put, looked_up, stored, LruCache};
use crate::layout::max;
use crate::pixels::PageBuffer;
use crate::text::{append_signed, signed_decimal};

verus! {

/// Number of rendered pages kept in memory. Sized to comfortably cover a page
/// plus its prefetched neighbors.
pub const CACHE_CAPACITY: usize = 48;

/// A request to render a specific page at a given scale.
#[derive(Clone, Copy, Debug, PartialEq, Eq, Structural)]
pub struct RenderRequest {
    pub page: i32,
    /// Pixels per point, in millionths.
    pub scale: u64,
    /// The view "epoch" this request belongs to. The viewer bumps it on every
    /// scroll/zoom, so the worker can drop requests from earlier views (pages
    /// that have since scrolled off screen).
    pub generation: u64,
    /// A low-priority prefetch (a neighbor of the visible pages). Rendered only
    /// after every visible page in the same epoch.
    pub prefetch: bool,
}

/// The render currently in progress, if any. `cookie` identifies it to whoever
/// can abort it, and means something only while `active`.
#[derive(Clone, Copy, Debug, PartialEq, Eq, Structural)]
pub struct AbortSlot {
    pub cookie: usize,
    pub epoch: u64,
    pub active: bool,
    /// Set when `advance` actually aborted the in-progress render, so the worker
    /// knows to discard its half-drawn result (rather than discarding merely
    /// because the epoch moved on).
    pub aborted: bool,
}

/// Lets the viewer cancel a render whose page has scrolled off screen.
#[derive(Clone, Copy, Debug, PartialEq, Eq, Structural)]
pub struct RenderControl {
    pub abort: AbortSlot,
}

impl RenderControl {
    /// Aborts an in-progress render from an epoch older than `epoch` (its page
    /// has scrolled off screen): returns the cookie of the render to abort.
    pub fn advance(&mut self, epoch: u64) -> (cookie: Option<usize>)
        ensures
            cookie == (if old(self).abort.active && old(self).abort.epoch < epoch {
                Some(old(self).abort.cookie)
            } else {
                None
            }),
            final(self).abort == (AbortSlot {
                aborted: old(self).abort.aborted || (old(self).abort.active
                    && old(self).abort.epoch < epoch),
                ..old(self).abort
            }),
            final(self).abort == advanced(old(self).abort, seq![epoch]),
    {
        proof {
            reveal_with_fuel(advanced, 2);
            assert(seq![epoch].drop_last() =~= Seq::<u64>::empty());
        }
        if self.abort.active && self.abort.epoch < epoch {
            self.abort.aborted = true;
            Some(self.abort.cookie)
        } else {
            None
        }
    }

    /// A control with no render in progress.
    pub fn inert() -> (control: Self)
        ensures
            control.abort == (AbortSlot { cookie: 0, epoch: 0, active: false, aborted: false }),
    {
        RenderControl { abort: AbortSlot { cookie: 0, epoch: 0, active: false, aborted: false } }
    }

    /// Registers a render that is about to start, so that it can be aborted.
    pub fn begin(&mut self, cookie: usize, epoch: u64)
        ensures
            final(self).abort == (AbortSlot { cookie, epoch, active: true, aborted: false }),
    {
        self.abort.cookie = cookie;
        self.abort.epoch = epoch;
        self.abort.active = true;
        self.abort.aborted = false;
    }

    /// Ends the registered render and tells whether it was aborted.
    pub fn finish(&mut self) -> (aborted: bool)
        ensures
            aborted == old(self).abort.aborted,
            final(self).abort == (AbortSlot { active: false, ..old(self).abort }),
    {
        self.abort.active = false;
        self.abort.aborted
    }
}

/// A scale quantized to whole per-mille steps, so scales can be compared exactly.
pub open spec fn per_mille(scale: int) -> int {
    let steps = (scale + 500) / 1000;
    if steps > u32::MAX { u32::MAX as int } else { steps }
}

/// What identifies a rendered page: its index and its quantized scale.
pub open spec fn key_of(request: RenderRequest) -> i64 {
    (request.page * 0x1_0000_0000 + per_mille(request.scale as int)) as i64
}

/// The cache key of a request.
pub fn cache_key(request: &RenderRequest) -> (key: i64)
    ensures
        key == key_of(*request),
        key == request.page * 0x1_0000_0000 + per_mille(request.scale as int),
{
    let mut steps: u64 = request.scale / 1000;
    if request.scale % 1000 >= 500 {
        steps += 1;
    }
    if steps > 0xffff_ffff {
        steps = 0xffff_ffff;
    }
    request.page as i64 * 0x1_0000_0000 + steps as i64
}

/// Two requests share a key exactly if they ask for the same page at scales that
/// round to the same per-mille step.
pub proof fn law_cache_key_identifies_page_and_scale(a: RenderRequest, b: RenderRequest)
    ensures
        key_of(a) == key_of(b) <==> a.page == b.page && per_mille(a.scale as int) == per_mille(
            b.scale as int,
        ),
{
}

/// A scale is rounded to the nearest per-mille step, half of one upwards, as far as
/// steps can be counted with 32 bits.
pub proof fn law_scales_are_rounded_to_per_mille(scale: int)
    requires
        scale >= 0,
    ensures
        scale < 1_000 * 0xffff_ffff + 500 ==> -500 < 1_000 * per_mille(scale) - scale <= 500,
        scale >= 1_000 * 0xffff_ffff - 500 ==> per_mille(scale) == 0xffff_ffff,
{
}

/// The newest view that any of the requests belongs to.
pub open spec fn newest(requests: Seq<RenderRequest>) -> u64
    decreases requests.len(),
{
    if requests.len() == 0 {
        0
    } else {
        let rest = newest(requests.drop_last());
        if requests.last().generation > rest { requests.last().generation } else { rest }
    }
}

/// The requests of the newest view. Everything older is off screen.
pub open spec fn newest_view(requests: Seq<RenderRequest>) -> Seq<RenderRequest> {
    let generation = newest(requests);
    requests.filter(|request: RenderRequest| request.generation == generation)
}

/// Whether `a` is rendered no later than `b`: visible pages before prefetch, then
/// topmost first.
pub open spec fn precedes(a: RenderRequest, b: RenderRequest) -> bool {
    (!a.prefetch && b.prefetch) || (a.prefetch == b.prefetch && a.page <= b.page)
}

/// `queue` with `request` put in behind everything that precedes it.
pub open spec fn put_in(queue: Seq<RenderRequest>, request: RenderRequest) -> Seq<RenderRequest>
    decreases queue.len(),
{
    if queue.len() == 0 || precedes(queue.last(), request) {
        queue.push(request)
    } else {
        put_in(queue.drop_last(), request).push(queue.last())
    }
}

/// The requests in the order in which they are rendered. Requests of the same
/// rank stay in the order in which they came.
pub open spec fn in_order(requests: Seq<RenderRequest>) -> Seq<RenderRequest>
    decreases requests.len(),
{
    if requests.len() == 0 {
        requests
    } else {
        put_in(in_order(requests.drop_last()), requests.last())
    }
}

/// The requests without those that repeat the one right before them.
pub open spec fn without_repeats(requests: Seq<RenderRequest>) -> Seq<RenderRequest>
    decreases requests.len(),
{
    if requests.len() <= 1 {
        requests
    } else {
        let kept = without_repeats(requests.drop_last());
        if key_of(kept.last()) == key_of(requests.last()) {
            kept
        } else {
            kept.push(requests.last())
        }
    }
}

/// What is left to render of the pending requests, first one first.
pub open spec fn schedule(pending: Seq<RenderRequest>) -> Seq<RenderRequest> {
    without_repeats(in_order(newest_view(pending)))
}

/// Where the newest view is reached by the requests.
proof fn lemma_newest_is_reached(requests: Seq<RenderRequest>)
    ensures
        forall|i: int|
            0 <= i < requests.len() ==> (#[trigger] requests[i]).generation <= newest(requests),
        requests.len() > 0 ==> exists|i: int|
            0 <= i < requests.len() && (#[trigger] requests[i]).generation == newest(requests),
    decreases requests.len(),
{
    if requests.len() > 0 {
        let rest = requests.drop_last();
        lemma_newest_is_reached(rest);
        assert forall|i: int| 0 <= i < requests.len() implies (#[trigger] requests[i]).generation
            <= newest(requests) by {
            if i < rest.len() {
                assert(rest[i] == requests[i]);
            }
        }
        if requests.last().generation > newest(rest) || rest.len() == 0 {
            assert(rest.len() == 0 ==> newest(rest) == 0);
            assert(requests[requests.len() - 1].generation == newest(requests));
        } else {
            let i = choose|i: int|
                0 <= i < rest.len() && (#[trigger] rest[i]).generation == newest(rest);
            assert(requests[i] == rest[i]);
        }
    }
}

/// Putting in adds one request, and keeps a queue in order.
proof fn lemma_put_in(queue: Seq<RenderRequest>, request: RenderRequest)
    requires
        forall|i: int, j: int| 0 <= i < j < queue.len() ==> precedes(#[trigger] queue[i], #[trigger] queue[j]),
    ensures
        put_in(queue, request).len() == queue.len() + 1,
        put_in(queue, request).to_multiset() == queue.to_multiset().insert(request),
        forall|i: int, j: int|
            0 <= i < j < queue.len() + 1 ==> precedes(
                #[trigger] put_in(queue, request)[i],
                #[trigger] put_in(queue, request)[j],
            ),
    decreases queue.len(),
{
    broadcast use vstd::seq_lib::group_to_multiset_ensures;

    if queue.len() > 0 && !precedes(queue.last(), request) {
        let rest = queue.drop_last();
        let done = put_in(rest, request);
        lemma_put_in(rest, request);
        assert(rest.push(queue.last()) =~= queue);
        assert(done.push(queue.last()).to_multiset() =~= queue.to_multiset().insert(request));
        assert forall|i: int| 0 <= i < done.len() implies precedes(
            #[trigger] done[i],
            queue.last(),
        ) by {
            assert(done.to_multiset().count(done[i]) > 0);
            if done[i] != request {
                assert(rest.to_multiset().count(done[i]) > 0);
                assert(rest.contains(done[i]));
                let k = choose|k: int| 0 <= k < rest.len() && rest[k] == done[i];
                assert(queue[k] == done[i]);
                assert(precedes(queue[k], queue[queue.len() - 1]));
            }
        }
    } else {
        assert forall|i: int| 0 <= i < queue.len() implies precedes(
            #[trigger] queue[i],
            request,
        ) by {
            if i < queue.len() - 1 {
                assert(precedes(queue[i], queue[queue.len() - 1]));
            }
        }
    }
}

/// Ordering loses no request and makes none up, and every request in the result
/// precedes all those behind it.
pub proof fn law_in_order_sorts(requests: Seq<RenderRequest>)
    ensures
        in_order(requests).len() == requests.len(),
        in_order(requests).to_multiset() == requests.to_multiset(),
        forall|i: int, j: int|
            0 <= i < j < in_order(requests).len() ==> precedes(
                #[trigger] in_order(requests)[i],
                #[trigger] in_order(requests)[j],
            ),
    decreases requests.len(),
{
    broadcast use vstd::seq_lib::group_to_multiset_ensures;

    if requests.len() > 0 {
        law_in_order_sorts(requests.drop_last());
        lemma_put_in(in_order(requests.drop_last()), requests.last());
        assert(requests.drop_last().push(requests.last()) =~= requests);
    }
}

/// Requests of the same page and priority are rendered in the order in which they came.
pub proof fn law_requests_of_a_rank_keep_their_order(
    requests: Seq<RenderRequest>,
    page: i32,
    prefetch: bool,
)
    ensures
        in_order(requests).filter(of_rank(page, prefetch)) == requests.filter(
            of_rank(page, prefetch),
        ),
    decreases requests.len(),
{
    if requests.len() > 0 {
        reveal(Seq::filter);
        let rest = requests.drop_last();
        law_requests_of_a_rank_keep_their_order(rest, page, prefetch);
        lemma_put_in_behind_its_rank(in_order(rest), requests.last(), page, prefetch);
    }
}

/// The requests for a page at a priority.
pub open spec fn of_rank(page: i32, prefetch: bool) -> spec_fn(RenderRequest) -> bool {
    |request: RenderRequest| request.page == page && request.prefetch == prefetch
}

/// A request is put in behind all of its rank.
proof fn lemma_put_in_behind_its_rank(
    queue: Seq<RenderRequest>,
    request: RenderRequest,
    page: i32,
    prefetch: bool,
)
    ensures
        put_in(queue, request).filter(of_rank(page, prefetch)) == (if request.page == page
            && request.prefetch == prefetch {
            queue.filter(of_rank(page, prefetch)).push(request)
        } else {
            queue.filter(of_rank(page, prefetch))
        }),
    decreases queue.len(),
{
    reveal(Seq::filter);
    if queue.len() == 0 || precedes(queue.last(), request) {
        assert(queue.push(request).drop_last() =~= queue);
    } else {
        let rest = queue.drop_last();
        let done = put_in(rest, request);
        lemma_put_in_behind_its_rank(rest, request, page, prefetch);
        assert(done.push(queue.last()).drop_last() =~= done);
    }
}

/// Some request of the queue has the given key.
pub open spec fn has_key(queue: Seq<RenderRequest>, key: i64) -> bool {
    exists|j: int| 0 <= j < queue.len() && key_of(#[trigger] queue[j]) == key
}

/// Dropping repeats keeps the first request, makes none up, and leaves for every
/// request one with the same key.
proof fn lemma_without_repeats(requests: Seq<RenderRequest>)
    ensures
        requests.len() > 0 ==> without_repeats(requests).len() > 0 && without_repeats(requests)[0]
            == requests[0] && key_of(without_repeats(requests).last()) == key_of(requests.last()),
        forall|i: int|
            0 <= i < without_repeats(requests).len() ==> requests.contains(
                #[trigger] without_repeats(requests)[i],
            ),
        forall|i: int|
            0 <= i < requests.len() ==> has_key(
                without_repeats(requests),
                key_of(#[trigger] requests[i]),
            ),
    decreases requests.len(),
{
    let kept = without_repeats(requests);
    if requests.len() > 1 {
        let rest = requests.drop_last();
        let before = without_repeats(rest);
        lemma_without_repeats(rest);
        assert forall|i: int| 0 <= i < kept.len() implies requests.contains(#[trigger] kept[i]) by {
            if i < before.len() {
                assert(rest.contains(before[i]));
                let k = choose|k: int| 0 <= k < rest.len() && rest[k] == before[i];
                assert(requests[k] == kept[i]);
            } else {
                assert(requests[requests.len() - 1] == kept[i]);
            }
        }
        assert forall|i: int| 0 <= i < requests.len() implies has_key(
            kept,
            key_of(#[trigger] requests[i]),
        ) by {
            if i < rest.len() {
                assert(rest[i] == requests[i]);
                let j = choose|j: int|
                    0 <= j < before.len() && key_of(#[trigger] before[j]) == key_of(rest[i]);
                assert(kept[j] == before[j]);
            } else {
                assert(key_of(kept[kept.len() - 1]) == key_of(requests[i]));
            }
        }
    } else if requests.len() == 1 {
        assert(kept[0] == requests[0]);
    }
}

/// Where anything is pending, there is something to render.
proof fn lemma_schedule_serves_newest(pending: Seq<RenderRequest>)
    requires
        pending.len() > 0,
    ensures
        schedule(pending).len() > 0,
{
    let keep = |request: RenderRequest| request.generation == newest(pending);
    lemma_newest_is_reached(pending);
    let i = choose|i: int|
        0 <= i < pending.len() && (#[trigger] pending[i]).generation == newest(pending);
    pending.lemma_filter_contains(keep, i);
    assert(newest_view(pending) == pending.filter(keep));
    law_in_order_sorts(newest_view(pending));
    lemma_without_repeats(in_order(newest_view(pending)));
}

/// Dropping repeats keeps a queue in order.
proof fn lemma_without_repeats_sorted(requests: Seq<RenderRequest>)
    requires
        forall|i: int, j: int|
            0 <= i < j < requests.len() ==> precedes(
                #[trigger] requests[i],
                #[trigger] requests[j],
            ),
    ensures
        forall|i: int, j: int|
            0 <= i < j < without_repeats(requests).len() ==> precedes(
                #[trigger] without_repeats(requests)[i],
                #[trigger] without_repeats(requests)[j],
            ),
    decreases requests.len(),
{
    if requests.len() > 1 {
        let rest = requests.drop_last();
        let before = without_repeats(rest);
        lemma_without_repeats_sorted(rest);
        lemma_without_repeats(rest);
        assert forall|i: int| 0 <= i < before.len() implies precedes(
            #[trigger] before[i],
            requests.last(),
        ) by {
            assert(rest.contains(before[i]));
            let k = choose|k: int| 0 <= k < rest.len() && rest[k] == before[i];
            assert(precedes(requests[k], requests[requests.len() - 1]));
        }
    }
}

/// What is rendered belongs to the newest view and was asked for; visible pages
/// come before prefetch and the topmost page first; and every page of the newest
/// view that was asked for is served, at a scale that rounds the same.
pub proof fn law_schedule_serves_the_newest_view(pending: Seq<RenderRequest>)
    requires
        pending.len() > 0,
    ensures
        schedule(pending).len() > 0,
        forall|i: int|
            0 <= i < schedule(pending).len() ==> (#[trigger] schedule(pending)[i]).generation
                == newest(pending) && pending.contains(schedule(pending)[i]),
        forall|i: int, j: int|
            0 <= i < j < schedule(pending).len() ==> precedes(
                #[trigger] schedule(pending)[i],
                #[trigger] schedule(pending)[j],
            ),
        forall|i: int|
            0 <= i < pending.len() && (#[trigger] pending[i]).generation == newest(pending)
                ==> has_key(schedule(pending), key_of(pending[i])) && precedes(
                schedule(pending)[0],
                pending[i],
            ),
        forall|i: int|
            0 <= i < pending.len() ==> (#[trigger] pending[i]).generation <= newest(pending),
{
    broadcast use vstd::seq_lib::group_to_multiset_ensures;

    let keep = |request: RenderRequest| request.generation == newest(pending);
    let kept = pending.filter(keep);
    let sorted = in_order(kept);
    let queue = schedule(pending);
    lemma_newest_is_reached(pending);
    lemma_schedule_serves_newest(pending);
    law_in_order_sorts(kept);
    lemma_without_repeats(sorted);
    lemma_without_repeats_sorted(sorted);
    assert forall|i: int| 0 <= i < queue.len() implies (#[trigger] queue[i]).generation == newest(
        pending,
    ) && pending.contains(queue[i]) by {
        assert(sorted.contains(queue[i]));
        assert(sorted.to_multiset().count(queue[i]) > 0);
        assert(kept.contains(queue[i]));
        let k = choose|k: int| 0 <= k < kept.len() && kept[k] == queue[i];
        pending.lemma_filter_pred(keep, k);
        pending.lemma_filter_contains_rev(keep, queue[i]);
    }
    assert forall|i: int|
        0 <= i < pending.len() && (#[trigger] pending[i]).generation == newest(
            pending,
        ) implies has_key(queue, key_of(pending[i])) && precedes(queue[0], pending[i]) by {
        pending.lemma_filter_contains(keep, i);
        assert(kept.to_multiset().count(pending[i]) > 0);
        assert(sorted.contains(pending[i]));
        let k = choose|k: int| 0 <= k < sorted.len() && sorted[k] == pending[i];
        assert(has_key(queue, key_of(sorted[k])));
        if k > 0 {
            assert(precedes(sorted[0], sorted[k]));
        }
    }
}

/// No visible page waits for a prefetched one, and of the pages of a priority the topmost
/// comes first.
pub proof fn law_visible_pages_are_rendered_from_the_top(pending: Seq<RenderRequest>)
    requires
        pending.len() > 0,
    ensures
        forall|i: int, j: int|
            0 <= i < j < schedule(pending).len() ==> {
                let earlier = #[trigger] schedule(pending)[i];
                let later = #[trigger] schedule(pending)[j];
                &&& earlier.prefetch ==> later.prefetch
                &&& earlier.prefetch == later.prefetch ==> earlier.page <= later.page
            },
{
    law_schedule_serves_the_newest_view(pending);
}

/// Of requests in a row with the same key the first is kept: a request that is kept
/// follows one with another key, or none.
pub proof fn law_the_first_of_a_run_is_kept(requests: Seq<RenderRequest>, at: int) -> (from: int)
    requires
        0 <= at < without_repeats(requests).len(),
    ensures
        0 <= from < requests.len(),
        requests[from] == without_repeats(requests)[at],
        from > 0 ==> key_of(requests[from - 1]) != key_of(requests[from]),
    decreases requests.len(),
{
    if requests.len() <= 1 {
        at
    } else {
        let rest = requests.drop_last();
        let before = without_repeats(rest);
        lemma_without_repeats(rest);
        if at < before.len() {
            let from = law_the_first_of_a_run_is_kept(rest, at);
            assert(rest[from] == requests[from]);
            from
        } else {
            assert(rest.last() == requests[requests.len() - 2]);
            requests.len() - 1
        }
    }
}

/// Dropping repeats leaves no two neighbors with the same key.
proof fn lemma_neighbors_differ(requests: Seq<RenderRequest>)
    ensures
        forall|i: int|
            0 <= i && i + 1 < without_repeats(requests).len() ==> key_of(
                #[trigger] without_repeats(requests)[i],
            ) != key_of(without_repeats(requests)[i + 1]),
    decreases requests.len(),
{
    if requests.len() > 1 {
        let before = without_repeats(requests.drop_last());
        let kept = without_repeats(requests);
        lemma_neighbors_differ(requests.drop_last());
        lemma_without_repeats(requests.drop_last());
        assert forall|i: int| 0 <= i && i + 1 < kept.len() implies key_of(#[trigger] kept[i])
            != key_of(kept[i + 1]) by {
            assert(kept[i] == before[i]);
            if i + 1 < before.len() {
                assert(kept[i + 1] == before[i + 1]);
            } else {
                assert(before[i] == before.last());
            }
        }
    }
}

/// Whatever is pending, no request is served right after one with the same key.
pub proof fn law_no_key_is_served_twice_in_a_row(pending: Seq<RenderRequest>)
    ensures
        forall|i: int|
            0 <= i && i + 1 < schedule(pending).len() ==> key_of(#[trigger] schedule(pending)[i])
                != key_of(schedule(pending)[i + 1]),
{
    lemma_neighbors_differ(in_order(newest_view(pending)));
}

/// Requests for the same page at the same priority have the same key, as they have
/// where one view asks for one scale.
pub open spec fn one_key_per_page(requests: Seq<RenderRequest>) -> bool {
    forall|i: int, j: int|
        0 <= i < requests.len() && 0 <= j < requests.len() && (#[trigger] requests[i]).generation
            == (#[trigger] requests[j]).generation && requests[i].page == requests[j].page
            && requests[i].prefetch == requests[j].prefetch ==> key_of(requests[i]) == key_of(
            requests[j],
        )
}

/// No two requests of the same priority have the same key.
pub open spec fn served_once(queue: Seq<RenderRequest>) -> bool {
    forall|i: int, j: int|
        0 <= i < j < queue.len() && (#[trigger] queue[i]).prefetch == (#[trigger] queue[j]).prefetch
            ==> key_of(queue[i]) != key_of(queue[j])
}

/// Where requests of a page stand together, dropping repeats leaves one of each.
proof fn lemma_repeats_dropped(requests: Seq<RenderRequest>)
    requires
        one_key_per_page(requests),
        forall|i: int| 0 <= i < requests.len() ==> (#[trigger] requests[i]).generation
            == requests[0].generation,
        forall|i: int, j: int|
            0 <= i < j < requests.len() ==> precedes(
                #[trigger] requests[i],
                #[trigger] requests[j],
            ),
    ensures
        served_once(without_repeats(requests)),
    decreases requests.len(),
{
    if requests.len() > 1 {
        let rest = requests.drop_last();
        let last = requests.last();
        let before = without_repeats(rest);
        let kept = without_repeats(requests);
        assert forall|i: int| 0 <= i < rest.len() implies #[trigger] rest[i] == requests[i] by {}
        lemma_repeats_dropped(rest);
        lemma_without_repeats(rest);
        lemma_without_repeats_sorted(rest);
        if key_of(before.last()) != key_of(last) {
            assert forall|i: int, j: int|
                0 <= i < j < kept.len() && (#[trigger] kept[i]).prefetch == (
                #[trigger] kept[j]).prefetch implies key_of(kept[i]) != key_of(kept[j]) by {
                if j < before.len() {
                    assert(kept[i] == before[i] && kept[j] == before[j]);
                } else if key_of(before[i]) == key_of(last) {
                    law_cache_key_identifies_page_and_scale(before[i], last);
                    let end = before[before.len() - 1];
                    assert(rest.contains(end));
                    let k = choose|k: int| 0 <= k < rest.len() && rest[k] == end;
                    assert(precedes(requests[k], requests[requests.len() - 1]));
                    if i < before.len() - 1 {
                        assert(precedes(before[i], before[before.len() - 1]));
                    }
                    assert(end.page == last.page && end.prefetch == last.prefetch);
                    assert(key_of(requests[k]) == key_of(requests[requests.len() - 1]));
                }
            }
        }
    }
}

/// A view that asks for each page at one scale has every page served once: however
/// often a page was asked for at a priority, one request for it is left.
pub proof fn law_a_view_is_served_once(pending: Seq<RenderRequest>)
    requires
        one_key_per_page(pending),
    ensures
        served_once(schedule(pending)),
{
    broadcast use vstd::seq_lib::group_to_multiset_ensures;

    let keep = |request: RenderRequest| request.generation == newest(pending);
    let kept = pending.filter(keep);
    let sorted = in_order(kept);
    law_in_order_sorts(kept);
    assert forall|i: int| 0 <= i < sorted.len() implies pending.contains(#[trigger] sorted[i])
        && sorted[i].generation == newest(pending) by {
        assert(sorted.to_multiset().count(sorted[i]) > 0);
        assert(kept.contains(sorted[i]));
        let k = choose|k: int| 0 <= k < kept.len() && kept[k] == sorted[i];
        pending.lemma_filter_pred(keep, k);
        pending.lemma_filter_contains_rev(keep, sorted[i]);
    }
    assert(one_key_per_page(sorted)) by {
        assert forall|i: int, j: int|
            0 <= i < sorted.len() && 0 <= j < sorted.len() && (#[trigger] sorted[i]).generation == (
            #[trigger] sorted[j]).generation && sorted[i].page == sorted[j].page
                && sorted[i].prefetch == sorted[j].prefetch implies key_of(sorted[i]) == key_of(
            sorted[j],
        ) by {
            let a = choose|a: int| 0 <= a < pending.len() && pending[a] == sorted[i];
            let b = choose|b: int| 0 <= b < pending.len() && pending[b] == sorted[j];
            assert(key_of(pending[a]) == key_of(pending[b]));
        }
    }
    lemma_repeats_dropped(sorted);
}

/// The slot after a run of `advance` calls.
pub open spec fn advanced(slot: AbortSlot, epochs: Seq<u64>) -> AbortSlot
    decreases epochs.len(),
{
    if epochs.len() == 0 {
        slot
    } else {
        let before = advanced(slot, epochs.drop_last());
        AbortSlot {
            aborted: before.aborted || (before.active && before.epoch < epochs.last()),
            ..before
        }
    }
}

/// A registered render is reported as aborted exactly if the view moved on to a
/// newer epoch while it was in progress.
pub proof fn law_aborted_iff_view_moved_on(cookie: usize, epoch: u64, epochs: Seq<u64>)
    ensures
        ({
            let begun = AbortSlot { cookie, epoch, active: true, aborted: false };
            let ended = advanced(begun, epochs);
            &&& ended.active && ended.cookie == cookie && ended.epoch == epoch
            &&& ended.aborted <==> exists|i: int|
                0 <= i < epochs.len() && epoch < #[trigger] epochs[i]
        }),
    decreases epochs.len(),
{
    if epochs.len() > 0 {
        let rest = epochs.drop_last();
        law_aborted_iff_view_moved_on(cookie, epoch, rest);
        if epoch < epochs.last() {
            assert(epoch < epochs[epochs.len() - 1]);
        } else if exists|i: int| 0 <= i < rest.len() && epoch < #[trigger] rest[i] {
            let i = choose|i: int| 0 <= i < rest.len() && epoch < #[trigger] rest[i];
            assert(epoch < epochs[i]);
        } else {
            assert forall|i: int| 0 <= i < epochs.len() implies epoch >= #[trigger] epochs[i] by {
                if i < rest.len() {
                    assert(rest[i] == epochs[i]);
                }
            }
        }
    }
}

/// Nothing is aborted where no render is in progress.
pub proof fn law_inactive_slot_is_never_aborted(slot: AbortSlot, epochs: Seq<u64>)
    requires
        !slot.active,
    ensures
        advanced(slot, epochs) == slot,
    decreases epochs.len(),
{
    if epochs.len() > 0 {
        law_inactive_slot_is_never_aborted(slot, epochs.drop_last());
    }
}

/// Whether `a` is rendered no later than `b`.
fn comes_first(a: &RenderRequest, b: &RenderRequest) -> (first: bool)
    ensures
        first == precedes(*a, *b),
{
    (!a.prefetch && b.prefetch) || (a.prefetch == b.prefetch && a.page <= b.page)
}

/// Putting in is insertion right behind the last request that precedes.
proof fn lemma_put_in_at(queue: Seq<RenderRequest>, request: RenderRequest, at: int)
    requires
        0 <= at <= queue.len(),
        at > 0 ==> precedes(queue[at - 1], request),
        forall|k: int| at <= k < queue.len() ==> !precedes(#[trigger] queue[k], request),
    ensures
        put_in(queue, request) == queue.insert(at, request),
    decreases queue.len(),
{
    if at < queue.len() {
        assert(queue.last() == queue[queue.len() - 1]);
        lemma_put_in_at(queue.drop_last(), request, at);
        assert(queue.drop_last().insert(at, request).push(queue.last()) =~= queue.insert(
            at,
            request,
        ));
    } else {
        assert(queue.push(request) =~= queue.insert(at, request));
    }
}

/// The newest generation among the requests.
fn newest_generation(requests: &Vec<RenderRequest>) -> (generation: u64)
    ensures
        generation == newest(requests@),
{
    let mut generation: u64 = 0;
    for i in 0..requests.len()
        invariant
            generation == newest(requests@.take(i as int)),
    {
        assert(requests@.take(i + 1).drop_last() =~= requests@.take(i as int));
        if requests[i].generation > generation {
            generation = requests[i].generation;
        }
    }
    assert(requests@.take(requests@.len() as int) =~= requests@);
    generation
}

/// Keeps only the newest view, in rendering order.
fn sorted_on_screen(requests: &Vec<RenderRequest>) -> (queue: Vec<RenderRequest>)
    ensures
        queue@ == in_order(newest_view(requests@)),
{
    let generation: u64 = newest_generation(requests);
    let ghost keep = |request: RenderRequest| request.generation == generation;
    let mut queue: Vec<RenderRequest> = Vec::new();
    assert(requests@.take(0).filter(keep) =~= Seq::<RenderRequest>::empty()) by {
        reveal(Seq::filter);
    }
    for i in 0..requests.len()
        invariant
            keep == (|request: RenderRequest| request.generation == generation),
            queue@ == in_order(requests@.take(i as int).filter(keep)),
    {
        let request: RenderRequest = requests[i];
        proof {
            reveal(Seq::filter);
            assert(requests@.take(i + 1).drop_last() =~= requests@.take(i as int));
            let so_far = requests@.take(i as int).filter(keep);
            assert(so_far.push(request).drop_last() =~= so_far);
        }
        if request.generation == generation {
            let mut at: usize = queue.len();
            while at > 0 && !comes_first(&queue[at - 1], &request)
                invariant
                    at <= queue@.len(),
                    forall|k: int|
                        at <= k < queue@.len() ==> !precedes(#[trigger] queue@[k], request),
                decreases at,
            {
                at -= 1;
            }
            proof {
                lemma_put_in_at(queue@, request, at as int);
            }
            queue.insert(at, request);
        }
    }
    assert(requests@.take(requests@.len() as int) =~= requests@);
    queue
}

/// Drops requests that repeat the one right before them.
fn drop_repeats(queue: Vec<RenderRequest>) -> (kept: Vec<RenderRequest>)
    ensures
        kept@ == without_repeats(queue@),
{
    let mut kept: Vec<RenderRequest> = Vec::new();
    for i in 0..queue.len()
        invariant
            kept@ == without_repeats(queue@.take(i as int)),
            i > 0 ==> kept@.len() > 0,
    {
        assert(queue@.take(i + 1).drop_last() =~= queue@.take(i as int));
        let request: RenderRequest = queue[i];
        if kept.len() == 0 || cache_key(&kept[kept.len() - 1]) != cache_key(&request) {
            kept.push(request);
        }
        assert(i == 0 ==> kept@ =~= queue@.take(1));
    }
    assert(queue@.take(queue@.len() as int) =~= queue@);
    kept
}

/// What the worker does next.
pub enum Job {
    /// The page is in the cache: hand it to the window.
    Show { page: i32, buffer: PageBuffer },
    /// Render the page.
    Render { request: RenderRequest },
}

/// What becomes of a render that came to its end.
pub enum Delivery {
    /// Nothing: the render was aborted, and is half-drawn.
    Nothing,
    /// Hand the page to the window.
    Show { page: i32, buffer: PageBuffer },
    /// Tell the user what went wrong.
    Status { text: String },
}

/// The message for a page that could not be rendered, with its 1-based number.
pub open spec fn render_failure(page: int, error: Seq<char>) -> Seq<char> {
    "Failed to render page "@ + signed_decimal(page + 1) + ": "@ + error
}

/// The render worker's state: the requests waiting to be rendered, and the pages
/// it has rendered.
///
/// It renders one page at a time and looks for further requests after each, so a
/// fresh scroll preempts a stale backlog: only the newest generation (the current
/// view) is ever rendered, and pages that scrolled off screen are dropped.
pub struct RenderWorker {
    pub pending: Vec<RenderRequest>,
    pub cache: LruCache<i64, PageBuffer>,
}

impl RenderWorker {
    pub open spec fn wf(&self) -> bool {
        &&& self.cache.wf()
        &&& self.cache.capacity == CACHE_CAPACITY
    }

    /// A worker with nothing to do and nothing rendered.
    pub fn new() -> (worker: Self)
        ensures
            worker.wf(),
            worker.pending@.len() == 0,
            worker.cache.capacity == 48,
            worker.cache.tick == 0,
            worker.cache.entries@.len() == 0,
    {
        RenderWorker { pending: Vec::new(), cache: LruCache::new(CACHE_CAPACITY) }
    }

    /// Whether there is nothing to do before another request arrives.
    pub fn is_idle(&self) -> (idle: bool)
        ensures
            idle == (self.pending@.len() == 0),
    {
        self.pending.len() == 0
    }

    /// Queues a request.
    pub fn enqueue(&mut self, request: RenderRequest)
        requires
            old(self).wf(),
        ensures
            final(self).wf(),
            final(self).pending@ == old(self).pending@.push(request),
            final(self).cache == old(self).cache,
    {
        self.pending.push(request);
    }

    /// Takes the request to serve now off the queue, and looks its page up in the
    /// cache. Requests of older views, and repeated ones, leave the queue as well.
    pub fn next(&mut self) -> (job: Option<Job>)
        requires
            old(self).wf(),
            old(self).cache.tick < u64::MAX,
        ensures
            final(self).wf(),
            old(self).pending@.len() == 0 ==> job is None && *final(self) == *old(self),
            old(self).pending@.len() > 0 ==> {
                let queue = schedule(old(self).pending@);
                let key = key_of(queue[0]);
                &&& queue.len() > 0
                &&& final(self).pending@ == queue.skip(1)
                &&& looked_up(old(self).cache, final(self).cache, key)
                &&& if old(self).cache.entries@.contains_key(key) {
                    job matches Some(Job::Show { page, buffer }) && page == queue[0].page
                        && buffer@ == old(self).cache.entries@[key].0@
                } else {
                    job == Some(Job::Render { request: queue[0] })
                }
            },
    {
        if self.pending.len() == 0 {
            return None;
        }
        let sorted: Vec<RenderRequest> = sorted_on_screen(&self.pending);
        let mut queue: Vec<RenderRequest> = drop_repeats(sorted);
        proof {
            lemma_schedule_serves_newest(self.pending@);
        }
        let request: RenderRequest = queue.remove(0);
        proof {
            let all = schedule(self.pending@);
            assert(all.remove(0) =~= all.skip(1));
        }
        self.pending = queue;
        let key: i64 = cache_key(&request);
        match self.cache.get(&key) {
            Some(buffer) => Some(Job::Show { page: request.page, buffer }),
            None => Some(Job::Render { request }),
        }
    }

    /// Takes the end of a render. An aborted render is half-drawn: it is dropped
    /// (it will be requested again if the page is still wanted). A completed
    /// render is kept even if the view has since moved on.
    pub fn finish(
        &mut self,
        request: RenderRequest,
        outcome: Result<PageBuffer, String>,
        aborted: bool,
    ) -> (delivery: Delivery)
        requires
            old(self).wf(),
            old(self).cache.tick < u64::MAX,
        ensures
            final(self).wf(),
            final(self).pending == old(self).pending,
            match outcome {
                _ if aborted => delivery is Nothing && final(self).cache == old(self).cache,
                Ok(rendered) => {
                    &&& delivery matches Delivery::Show { page, buffer } && page == request.page
                        && buffer@ == rendered@
                    &&& exists|kept: PageBuffer|
                        kept@ == rendered@ && #[trigger] stored(
                            old(self).cache,
                            final(self).cache,
                            key_of(request),
                            kept,
                        )
                },
                Err(error) => {
                    &&& delivery matches Delivery::Status { text } && text@ == render_failure(
                        request.page as int,
                        error@,
                    ) && text@ == "Failed to render page "@ + signed_decimal(request.page + 1)
                        + ": "@ + error@
                    &&& final(self).cache == old(self).cache
                },
            },
    {
        if aborted {
            return Delivery::Nothing;
        }
        match outcome {
            Ok(buffer) => {
                let kept: PageBuffer = buffer.clone();
                self.cache.put(cache_key(&request), kept);
                Delivery::Show { page: request.page, buffer }
            },
            Err(error) => {
                let mut text: String = String::from_str("Failed to render page ");
                append_signed(&mut text, request.page as i64 + 1);
                text.append(": ");
                text.append(error.as_str());
                Delivery::Status { text }
            },
        }
    }
}

/// A page that was rendered is shown from the cache when it is asked for right
/// after, at a scale that rounds the same: with the picture that was kept.
pub proof fn law_a_rendered_page_is_at_hand(
    before: RenderWorker,
    after: RenderWorker,
    request: RenderRequest,
    kept: PageBuffer,
    again: RenderRequest,
)
    requires
        before.wf(),
        stored(before.cache, after.cache, key_of(request), kept),
        again.page == request.page,
        per_mille(again.scale as int) == per_mille(request.scale as int),
    ensures
        after.cache.entries@.contains_key(key_of(again)),
        after.cache.entries@[key_of(again)].0 == kept,
{
    law_cache_key_identifies_page_and_scale(request, again);
    law_get_returns_what_was_put(before.cache, after.cache, key_of(request), kept);
}

/// Target width, in micropixels, for sidebar page thumbnails.
pub const THUMB_WIDTH: u64 = 150_000_000;

/// The scale at which a page of the given width, in micropoints, is as wide as a
/// thumbnail. A page narrower than a point is taken as one point wide.
pub fn thumbnail_scale(width: u64) -> (scale: u64)
    ensures
        scale == THUMB_WIDTH * 1_000_000 / max(width as int, 1_000_000),
        width >= 1_000_000 ==> scale * width <= 150_000_000_000_000 < (scale + 1) * width,
        width < 1_000_000 ==> scale == 150_000_000,
{
    let points: u64 = if width >= 1_000_000 { width } else { 1_000_000 };
    let scale: u64 = THUMB_WIDTH * 1_000_000 / points;
    proof {
        let total = THUMB_WIDTH * 1_000_000;
        vstd::arithmetic::div_mod::lemma_fundamental_div_mod(total, points as int);
        vstd::arithmetic::div_mod::lemma_mod_bound(total, points as int);
        assert((scale + 1) * points == points * scale + points && scale * points == points * scale)
            by (nonlinear_arith);
    }
    scale
}

/// Which thumbnails have been rendered. Thumbnails are cheap and persistent, and
/// each page is rendered at most once.
pub struct ThumbnailQueue {
    pub done: HashSet<i32>,
}

/// The pages that were asked for, after a run of requests.
pub open spec fn asked(done: Set<i32>, pages: Seq<i32>) -> Set<i32>
    decreases pages.len(),
{
    if pages.len() == 0 {
        done
    } else {
        asked(done, pages.drop_last()).insert(pages.last())
    }
}

/// What a run of requests is answered: whether each page has to be rendered.
pub open spec fn answers(done: Set<i32>, pages: Seq<i32>) -> Seq<bool>
    decreases pages.len(),
{
    if pages.len() == 0 {
        Seq::empty()
    } else {
        answers(done, pages.drop_last()).push(
            !asked(done, pages.drop_last()).contains(pages.last()),
        )
    }
}

/// Over any run of requests, each page is rendered exactly once: the first time it
/// is asked for.
pub proof fn law_each_thumbnail_is_rendered_once(pages: Seq<i32>)
    ensures
        answers(Set::empty(), pages).len() == pages.len(),
        forall|i: int|
            0 <= i < pages.len() ==> (#[trigger] answers(Set::empty(), pages)[i] <==> !pages.take(
                i,
            ).contains(pages[i])),
        forall|page: i32| #[trigger]
            asked(Set::empty(), pages).contains(page) <==> pages.contains(page),
    decreases pages.len(),
{
    if pages.len() > 0 {
        let rest = pages.drop_last();
        let all = answers(Set::empty(), pages);
        law_each_thumbnail_is_rendered_once(rest);
        assert forall|i: int| 0 <= i < pages.len() implies (#[trigger] all[i] <==> !pages.take(
            i,
        ).contains(pages[i])) by {
            if i < rest.len() {
                assert(all[i] == answers(Set::empty(), rest)[i]);
                assert(rest.take(i) =~= pages.take(i));
            } else {
                assert(pages.take(i) =~= rest);
            }
        }
        assert forall|page: i32| #[trigger]
            asked(Set::empty(), pages).contains(page) <==> pages.contains(page) by {
            if pages.contains(page) {
                let k = choose|k: int| 0 <= k < pages.len() && pages[k] == page;
                assert(k < rest.len() ==> rest[k] == page);
            }
            if rest.contains(page) {
                let k = choose|k: int| 0 <= k < rest.len() && rest[k] == page;
                assert(pages[k] == page);
            }
            assert(pages[pages.len() - 1] == pages.last());
        }
    }
}

impl ThumbnailQueue {
    /// No thumbnail has been rendered yet.
    pub fn new() -> (queue: Self)
        ensures
            queue.done@ == Set::<i32>::empty(),
    {
        ThumbnailQueue { done: HashSet::new() }
    }

    /// Whether the thumbnail of `page` has to be rendered: only the first time it
    /// is asked for.
    pub fn first_request(&mut self, page: i32) -> (render: bool)
        ensures
            render == !old(self).done@.contains(page),
            final(self).done@ == old(self).done@.insert(page),
            final(self).done@ == asked(old(self).done@, seq![page]),
            seq![render] == answers(old(self).done@, seq![page]),
    {
        proof {
            reveal_with_fuel(asked, 2);
            reveal_with_fuel(answers, 2);
            assert(seq![page].drop_last() =~= Seq::<i32>::empty());
        }
        self.done.insert(page)
    }
}

}
