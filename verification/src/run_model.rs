//! Whole runs: the orchestrator's transition function played against a
//! model of the outside world, and what holds of every such run.
//!
//! The world answers each action the way a remote API and a disk without
//! faults do: a request gets the page it asks for, a written page can be
//! read back, a probe tells whether the file is there, and a transfer
//! leaves the file behind.

use crate::channel_handler::{
    apply_all, completion_signals, increments, lemma_cancel_resets_observer,
    lemma_increments_concat, lemma_increments_of_fixed_signals, start_signals, ProgressState,
    Signal,
};
use crate::e_handler::{fetch_over, EHandlerView, Mode};
use crate::funcs::{lemma_page_paths_differ, page_file_path};
use crate::orchestrator::{
    after_item, begin_fetch, begin_second_pass, coherent, in_flight, initial,
    lemma_cancel_ends_the_run, lemma_next_is_coherent, lemma_over_is_final,
    lemma_transfer_needs_source, next, on_fetched, on_probed, on_stored, on_transfer_end, quiet,
    start, ActionView, EventView, OrchestratorView, Phase, StepView,
};
use crate::type_defs::api_defs::PostView;
use vstd::prelude::*;

verus! {

/// The outside world of a run.
pub struct World {
    /// What the search returns for the query, page by page. Past the last
    /// page every page is empty.
    pub remote: Seq<Seq<PostView>>,
    /// The paths at which a file exists.
    pub files: Set<Seq<char>>,
    /// The pages kept on disk between the two passes of a bulk run, by path.
    pub kept: Map<Seq<char>, Seq<PostView>>,
    /// The number of bytes behind each URL.
    pub sizes: Map<Seq<char>, u64>,
}

/// What a run has done.
pub struct Tally {
    /// The state the run was left in.
    pub state: OrchestratorView,
    /// The world the run left behind.
    pub world: World,
    /// The signals sent, in order.
    pub signals: Seq<Signal>,
    /// Requests sent to the API.
    pub fetches: nat,
    /// Pages written to disk.
    pub persists: nat,
    /// Transfers made.
    pub transfers: nat,
    /// Bytes written by transfers.
    pub bytes: nat,
}

/// The page of the remote dataset with the given index.
pub open spec fn remote_page(w: World, page: int) -> Seq<PostView> {
    if 0 <= page < w.remote.len() {
        w.remote[page]
    } else {
        Seq::empty()
    }
}

/// The page index a state waits on, where it waits on one.
pub open spec fn page_of(phase: Phase) -> u32 {
    match phase {
        Phase::Fetching { page } => page,
        Phase::Persisting { page } => page,
        Phase::Loading { page } => page,
        Phase::Resolving { page, .. } => page,
        Phase::Transferring { page, .. } => page,
        _ => 0,
    }
}

/// The bytes behind a URL; nothing where the world does not know it.
pub open spec fn size_of(w: World, url: Seq<char>) -> u64 {
    if w.sizes.dom().contains(url) {
        w.sizes[url]
    } else {
        0
    }
}

/// How the world answers an action asked for in state `s`, and what the
/// action does to the world.
pub open spec fn respond(w: World, s: OrchestratorView, action: ActionView) -> (World, EventView) {
    match action {
        ActionView::Fetch(_) => (w, EventView::Page(remote_page(w, page_of(s.phase) as int))),
        ActionView::Persist { path, page } => (
            World { kept: w.kept.insert(path, page), ..w },
            EventView::Stored,
        ),
        ActionView::Load { path } => if w.kept.dom().contains(path) {
            (w, EventView::Page(w.kept[path]))
        } else {
            (w, EventView::Failed)
        },
        ActionView::Probe { path } => (w, EventView::Probed(w.files.contains(path))),
        ActionView::Transfer { url, path } => (
            World { files: w.files.insert(path), ..w },
            EventView::Transferred(size_of(w, url)),
        ),
        ActionView::Stop => (w, EventView::Cancel),
    }
}

/// One if the condition holds, zero otherwise.
pub open spec fn one_if(condition: bool) -> nat {
    if condition {
        1
    } else {
        0
    }
}

/// The bytes an action writes.
pub open spec fn bytes_of(w: World, action: ActionView) -> nat {
    match action {
        ActionView::Transfer { url, path } => size_of(w, url) as nat,
        _ => 0,
    }
}

/// The run that begins with `step` pending in state `s`: the world answers
/// each action and the orchestrator takes each answer, until it asks for
/// nothing more or `fuel` actions were performed.
pub open spec fn run(s: OrchestratorView, w: World, step: StepView, fuel: nat) -> Tally
    decreases fuel,
{
    if fuel == 0 || step.action is Stop {
        Tally {
            state: s,
            world: w,
            signals: step.signals,
            fetches: 0,
            persists: 0,
            transfers: 0,
            bytes: 0,
        }
    } else {
        let answer = respond(w, s, step.action);
        let then = next(s, answer.1);
        let rest = run(then.0, answer.0, then.1, (fuel - 1) as nat);
        Tally {
            state: rest.state,
            world: rest.world,
            signals: step.signals + rest.signals,
            fetches: rest.fetches + one_if(step.action is Fetch),
            persists: rest.persists + one_if(step.action is Persist),
            transfers: rest.transfers + one_if(step.action is Transfer),
            bytes: rest.bytes + bytes_of(w, step.action),
        }
    }
}

/// The run of a query from its start. Nothing is kept on disk from an
/// earlier run when it begins.
pub open spec fn run_from_start(config: EHandlerView, mode: Mode, w: World, fuel: nat) -> Tally {
    let first = next(initial(config, mode), EventView::Start);
    run(first.0, World { kept: Map::empty(), ..w }, first.1, fuel)
}

/// The number of requests the fetch loop of a bulk run sends when it
/// stands before the page with index `from`: one for each page up to and
/// including the first empty one, none past the page bound.
pub open spec fn fetches_from(bound: i32, w: World, from: u32) -> nat
    decreases w.remote.len() - from,
{
    if fetch_over(bound, from) {
        0
    } else if remote_page(w, from as int).len() == 0 {
        1
    } else {
        1 + fetches_from(bound, w, (from + 1) as u32)
    }
}

/// The index of the page at which the fetch loop of a bulk run stops when
/// it stands before the page with index `from`: the first page that is
/// empty or at which the loop is over. So many pages are written in all.
pub open spec fn pages_written(bound: i32, w: World, from: u32) -> u32
    decreases w.remote.len() - from,
{
    if fetch_over(bound, from) || remote_page(w, from as int).len() == 0 {
        from
    } else {
        pages_written(bound, w, (from + 1) as u32)
    }
}

/// Whether a run has left its fetch loop behind and asks for no request
/// and no page to be written.
pub open spec fn past_fetching(s: OrchestratorView, step: StepView) -> bool {
    &&& !(s.phase is Idle)
    &&& !(s.phase is Fetching)
    &&& !(s.phase is Persisting)
    &&& !(step.action is Fetch)
    &&& !(step.action is Persist)
}

/// Once a bulk run has left its fetch loop, or a single-page run has its
/// page, no step takes it back.
pub proof fn lemma_past_fetching_stays(s: OrchestratorView, step: StepView, e: EventView)
    requires
        past_fetching(s, step),
    ensures
        past_fetching(next(s, e).0, next(s, e).1),
{
}

/// A run that has left its fetch loop sends no request and writes no page.
pub proof fn lemma_no_fetch_past_fetching(s: OrchestratorView, w: World, step: StepView, fuel: nat)
    requires
        past_fetching(s, step),
    ensures
        run(s, w, step, fuel).fetches == 0,
        run(s, w, step, fuel).persists == 0,
    decreases fuel,
{
    if fuel == 0 || step.action is Stop {
    } else {
        let answer = respond(w, s, step.action);
        let then = next(s, answer.1);
        lemma_past_fetching_stays(s, step, answer.1);
        lemma_no_fetch_past_fetching(then.0, answer.0, then.1, (fuel - 1) as nat);
    }
}

/// The second pass of a bulk run, however it begins, is past the fetch loop.
pub proof fn lemma_second_pass_is_past_fetching(s: OrchestratorView, persisted: u32)
    ensures
        past_fetching(begin_second_pass(s, persisted).0, begin_second_pass(s, persisted).1),
{
}

/// The fetch loop of a bulk run, played against the world, sends
/// `fetches_from` requests and writes the pages before `pages_written`,
/// given fuel for two actions a page.
pub proof fn lemma_fetch_loop(s: OrchestratorView, w: World, page: u32, fuel: nat)
    requires
        s.mode == Mode::Bulk,
        !fetch_over(s.config.pages, page),
        fuel >= 2 * fetches_from(s.config.pages, w, page),
    ensures
        run(begin_fetch(s, page).0, w, begin_fetch(s, page).1, fuel).fetches == fetches_from(
            s.config.pages,
            w,
            page,
        ),
        run(begin_fetch(s, page).0, w, begin_fetch(s, page).1, fuel).persists == pages_written(
            s.config.pages,
            w,
            page,
        ) - page,
    decreases w.remote.len() - page,
{
    let bound = s.config.pages;
    let s0 = begin_fetch(s, page).0;
    let step0 = begin_fetch(s, page).1;
    let posts = remote_page(w, page as int);
    let answer = respond(w, s0, step0.action);
    let then = next(s0, answer.1);
    if posts.len() == 0 {
        lemma_second_pass_is_past_fetching(s0, page);
        lemma_no_fetch_past_fetching(then.0, w, then.1, (fuel - 1) as nat);
    } else {
        let s1 = then.0;
        let step1 = then.1;
        let answer1 = respond(w, s1, step1.action);
        let w1 = answer1.0;
        let then1 = next(s1, answer1.1);
        let rest1 = run(then1.0, w1, then1.1, (fuel - 2) as nat);
        assert(run(s1, w, step1, (fuel - 1) as nat).persists == rest1.persists + 1);
        lemma_same_remote(bound, w, w1, (page + 1) as u32);
        if fetch_over(bound, (page + 1) as u32) {
            lemma_second_pass_is_past_fetching(s1, (page + 1) as u32);
            lemma_no_fetch_past_fetching(then1.0, w1, then1.1, (fuel - 2) as nat);
        } else {
            lemma_fetch_loop(s1, w1, (page + 1) as u32, (fuel - 2) as nat);
        }
    }
}

/// The fetch loop reads the remote dataset and the page bound, nothing else
/// of the world.
pub proof fn lemma_same_remote(bound: i32, w: World, other: World, from: u32)
    requires
        w.remote == other.remote,
    ensures
        fetches_from(bound, w, from) == fetches_from(bound, other, from),
        pages_written(bound, w, from) == pages_written(bound, other, from),
    decreases w.remote.len() - from,
{
    if fetch_over(bound, from) || remote_page(w, from as int).len() == 0 {
    } else {
        lemma_same_remote(bound, w, other, (from + 1) as u32);
    }
}

/// What a run counts does not depend on the signals its first step carries.
pub proof fn lemma_counts_ignore_signals(
    s: OrchestratorView,
    w: World,
    step: StepView,
    other: StepView,
    fuel: nat,
)
    requires
        step.action == other.action,
    ensures
        run(s, w, step, fuel).fetches == run(s, w, other, fuel).fetches,
        run(s, w, step, fuel).persists == run(s, w, other, fuel).persists,
        run(s, w, step, fuel).transfers == run(s, w, other, fuel).transfers,
        run(s, w, step, fuel).bytes == run(s, w, other, fuel).bytes,
        run(s, w, step, fuel).state == run(s, w, other, fuel).state,
        run(s, w, step, fuel).world == run(s, w, other, fuel).world,
{
}

/// The requests and written pages of a bulk run from its start.
pub proof fn lemma_bulk_counts(config: EHandlerView, w: World, fuel: nat)
    requires
        fuel >= 2 * fetches_from(config.pages, w, 0),
    ensures
        run_from_start(config, Mode::Bulk, w, fuel).fetches == fetches_from(config.pages, w, 0),
        run_from_start(config, Mode::Bulk, w, fuel).persists == pages_written(config.pages, w, 0),
{
    let s = initial(config, Mode::Bulk);
    let first = next(s, EventView::Start);
    let clean = World { kept: Map::empty(), ..w };
    lemma_same_remote(config.pages, w, clean, 0);
    if fetch_over(config.pages, 0) {
        lemma_second_pass_is_past_fetching(s, 0);
        lemma_no_fetch_past_fetching(first.0, clean, first.1, fuel);
    } else {
        lemma_fetch_loop(s, clean, 0, fuel);
        lemma_counts_ignore_signals(first.0, clean, first.1, begin_fetch(s, 0).1, fuel);
    }
}

/// Bulk pagination stops at the first empty page. Where the page with
/// index `k` is the first without items and the page bound, if there is
/// one, is larger than `k`, the fetch loop sends the requests for the
/// pages `0` to `k`, that for the empty page being the last, and writes
/// exactly the `k` pages before it.
pub proof fn lemma_bulk_stops_at_first_empty_page(
    config: EHandlerView,
    w: World,
    k: u32,
    fuel: nat,
)
    requires
        k < u32::MAX,
        remote_page(w, k as int).len() == 0,
        forall|j: int| 0 <= j < k ==> #[trigger] remote_page(w, j).len() > 0,
        config.pages < 0 || config.pages > k,
        fuel >= 2 * (k + 1),
    ensures
        run_from_start(config, Mode::Bulk, w, fuel).fetches == k + 1,
        run_from_start(config, Mode::Bulk, w, fuel).persists == k,
{
    lemma_stops_at_empty(config.pages, w, k, 0);
    lemma_bulk_counts(config, w, fuel);
}

/// Bulk pagination respects the page bound. Where the bound is `n` and
/// none of the first `n` pages is empty, exactly `n` pages are fetched and
/// written.
pub proof fn lemma_bulk_respects_page_bound(
    config: EHandlerView,
    w: World,
    n: u32,
    fuel: nat,
)
    requires
        config.pages == n,
        forall|j: int| 0 <= j < n ==> #[trigger] remote_page(w, j).len() > 0,
        fuel >= 2 * n,
    ensures
        run_from_start(config, Mode::Bulk, w, fuel).fetches == n,
        run_from_start(config, Mode::Bulk, w, fuel).persists == n,
{
    lemma_stops_at_bound(config.pages, w, n, 0);
    lemma_bulk_counts(config, w, fuel);
}

/// The fetch loop before a page at or before the first empty page `k`.
proof fn lemma_stops_at_empty(bound: i32, w: World, k: u32, from: u32)
    requires
        from <= k,
        k < u32::MAX,
        remote_page(w, k as int).len() == 0,
        forall|j: int| 0 <= j < k ==> #[trigger] remote_page(w, j).len() > 0,
        bound < 0 || bound > k,
    ensures
        fetches_from(bound, w, from) == k - from + 1,
        pages_written(bound, w, from) == k,
    decreases k - from,
{
    if from < k {
        lemma_stops_at_empty(bound, w, k, (from + 1) as u32);
    }
}

/// The fetch loop before a page at or before the page bound `n`.
proof fn lemma_stops_at_bound(bound: i32, w: World, n: u32, from: u32)
    requires
        from <= n,
        bound == n,
        forall|j: int| 0 <= j < n ==> #[trigger] remote_page(w, j).len() > 0,
    ensures
        fetches_from(bound, w, from) == n - from,
        pages_written(bound, w, from) == n,
    decreases n - from,
{
    if from < n {
        lemma_stops_at_bound(bound, w, n, (from + 1) as u32);
    }
}

/// Whether every page the first pass of a bulk run has written, the pages
/// before `upto`, is there to be read back as it was fetched.
pub open spec fn pages_kept(w: World, upto: int) -> bool {
    forall|n: nat|
        1 <= n <= upto ==> w.kept.dom().contains(#[trigger] page_file_path(n))
            && w.kept[page_file_path(n)] == remote_page(w, n - 1)
}

/// Whether no page of the remote dataset holds more items than a page in
/// memory can.
pub open spec fn pages_fit(w: World) -> bool {
    forall|j: int| #[trigger] remote_page(w, j).len() <= usize::MAX
}

/// The items of the remote pages from `from` up to, and without, `upto`.
pub open spec fn items_in(w: World, from: int, upto: int) -> nat
    decreases upto - from,
{
    if from >= upto {
        0
    } else {
        remote_page(w, from).len() + items_in(w, from + 1, upto)
    }
}

/// The pages still to be read back when a run stands at `phase`.
pub open spec fn pages_left(s: OrchestratorView) -> nat {
    if s.mode == Mode::Bulk && s.persisted > page_of(s.phase) {
        (s.persisted - page_of(s.phase)) as nat
    } else {
        0
    }
}

/// The items of the page at hand still to be finished.
pub open spec fn items_left(s: OrchestratorView) -> nat {
    match s.phase {
        Phase::Resolving { page, item } => (s.posts.len() - item) as nat,
        Phase::Transferring { page, item } => (s.posts.len() - item) as nat,
        _ => 0,
    }
}

/// The items a run that processes pages has still to finish: those left
/// of the page at hand and those of the pages still to be read back.
pub open spec fn items_to_come(s: OrchestratorView, w: World) -> nat {
    if s.phase is Loading {
        items_in(w, page_of(s.phase) as int, s.persisted as int)
    } else if s.mode == Mode::Bulk {
        items_left(s) + items_in(w, page_of(s.phase) + 1, s.persisted as int)
    } else {
        items_left(s)
    }
}

/// The pages a run visits hold so many items in all: the first page in the
/// single-page modes, none for favourites without a user, and the pages the
/// first pass writes in bulk mode.
pub open spec fn items_visited(config: EHandlerView, mode: Mode, w: World) -> nat {
    match mode {
        Mode::Favourites => if config.username.len() == 0 {
            0
        } else {
            remote_page(w, 0).len()
        },
        Mode::Tags => remote_page(w, 0).len(),
        Mode::Bulk => items_in(w, 0, pages_written(config.pages, w, 0) as int),
    }
}

/// Changing the files of the world, or the pages it keeps, changes nothing
/// of the remote dataset.
pub proof fn lemma_items_in_same_remote(w: World, other: World, from: int, upto: int)
    requires
        w.remote == other.remote,
    ensures
        items_in(w, from, upto) == items_in(other, from, upto),
    decreases upto - from,
{
    if from < upto {
        lemma_items_in_same_remote(w, other, from + 1, upto);
    }
}

/// Once a run processes pages, it comes to its natural end and counts each
/// item still to come exactly once: given the fuel this returns, the run
/// that begins with `step` pending ends done.
pub proof fn lemma_processing_ends(s: OrchestratorView, w: World, step: StepView) -> (fuel: nat)
    requires
        coherent(s, step),
        s.phase is Loading || s.phase is Resolving || s.phase is Transferring,
        s.mode == Mode::Bulk ==> pages_kept(w, s.persisted as int),
        s.phase is Loading ==> s.mode == Mode::Bulk,
        !(s.phase is Loading) ==> s.posts.len() <= usize::MAX,
        pages_fit(w),
    ensures
        run(s, w, step, fuel).state.phase is Done,
        increments(run(s, w, step, fuel).signals) == increments(step.signals) + items_to_come(
            s,
            w,
        ),
    decreases pages_left(s), one_if(s.phase is Loading), items_left(s), one_if(s.phase is Resolving),
{
    let answer = respond(w, s, step.action);
    let then = next(s, answer.1);
    lemma_next_is_coherent(s, answer.1);
    lemma_increments_of_fixed_signals();
    assert(pages_fit(answer.0)) by {
        assert forall|j: int| #[trigger] remote_page(answer.0, j).len() <= usize::MAX by {
            assert(remote_page(answer.0, j) == remote_page(w, j));
        }
    }
    assert(s.mode == Mode::Bulk ==> pages_kept(answer.0, s.persisted as int)) by {
        if s.mode == Mode::Bulk {
            assert forall|n: nat| 1 <= n <= s.persisted implies answer.0.kept.dom().contains(
                #[trigger] page_file_path(n),
            ) && answer.0.kept[page_file_path(n)] == remote_page(answer.0, n - 1) by {
            }
        }
    }
    if let Phase::Loading { page } = s.phase {
        assert(items_in(w, page as int, s.persisted as int) == remote_page(w, page as int).len()
            + items_in(w, page + 1, s.persisted as int));
    }
    assert(increments(then.1.signals) + (if then.1.action is Stop {
        0
    } else {
        items_to_come(then.0, w)
    }) == items_to_come(s, w)) by {
        let one = seq![Signal::Count(1)];
        lemma_increments_concat(one, Seq::<Signal>::empty());
        lemma_increments_concat(one, completion_signals());
        lemma_increments_concat(Seq::<Signal>::empty(), completion_signals());
    }
    if then.1.action is Stop {
        assert(run(then.0, answer.0, then.1, 0).signals == then.1.signals);
        lemma_increments_concat(step.signals, then.1.signals);
        1
    } else {
        let rest = lemma_processing_ends(then.0, answer.0, then.1);
        lemma_items_in_same_remote(w, answer.0, page_of(then.0.phase) as int, s.persisted as int);
        lemma_items_in_same_remote(w, answer.0, page_of(then.0.phase) + 1, s.persisted as int);
        lemma_increments_concat(step.signals, run(then.0, answer.0, then.1, rest).signals);
        rest + 1
    }
}

/// The second pass of a bulk run comes to its natural end and counts each
/// item of the pages the first pass has written exactly once.
pub proof fn lemma_second_pass_ends(s: OrchestratorView, w: World, persisted: u32) -> (fuel: nat)
    requires
        s.mode == Mode::Bulk,
        pages_kept(w, persisted as int),
        pages_fit(w),
    ensures
        run(
            begin_second_pass(s, persisted).0,
            w,
            begin_second_pass(s, persisted).1,
            fuel,
        ).state.phase is Done,
        increments(
            run(begin_second_pass(s, persisted).0, w, begin_second_pass(s, persisted).1, fuel).signals,
        ) == items_in(w, 0, persisted as int),
{
    let begun = begin_second_pass(s, persisted);
    lemma_increments_of_fixed_signals();
    if persisted == 0 {
        0
    } else {
        lemma_processing_ends(begun.0, w, begun.1)
    }
}

/// The fetch loop of a bulk run comes to its end, and the run with it,
/// having counted each item of the pages it wrote exactly once.
pub proof fn lemma_fetching_ends(s: OrchestratorView, w: World, page: u32) -> (fuel: nat)
    requires
        s.mode == Mode::Bulk,
        !fetch_over(s.config.pages, page),
        pages_kept(w, page as int),
        pages_fit(w),
    ensures
        run(begin_fetch(s, page).0, w, begin_fetch(s, page).1, fuel).state.phase is Done,
        increments(run(begin_fetch(s, page).0, w, begin_fetch(s, page).1, fuel).signals)
            == items_in(w, 0, pages_written(s.config.pages, w, page) as int),
    decreases w.remote.len() - page,
{
    let s0 = begin_fetch(s, page).0;
    let step0 = begin_fetch(s, page).1;
    let posts = remote_page(w, page as int);
    let then = next(s0, EventView::Page(posts));
    lemma_next_is_coherent(s0, EventView::Page(posts));
    lemma_increments_of_fixed_signals();
    if posts.len() == 0 {
        let rest = lemma_second_pass_ends(s0, w, page);
        lemma_increments_concat(step0.signals, run(then.0, w, then.1, rest).signals);
        rest + 1
    } else {
        let s1 = then.0;
        let step1 = then.1;
        let answer1 = respond(w, s1, step1.action);
        let w1 = answer1.0;
        let then1 = next(s1, EventView::Stored);
        assert(pages_fit(w1)) by {
            assert forall|j: int| #[trigger] remote_page(w1, j).len() <= usize::MAX by {
                assert(remote_page(w1, j) == remote_page(w, j));
            }
        }
        assert(pages_kept(w1, page + 1)) by {
            assert forall|n: nat| 1 <= n <= page + 1 implies w1.kept.dom().contains(
                #[trigger] page_file_path(n),
            ) && w1.kept[page_file_path(n)] == remote_page(w1, n - 1) by {
                if n <= page {
                    if page_file_path(n) == page_file_path((page + 1) as nat) {
                        lemma_page_paths_differ(n, (page + 1) as nat);
                    }
                }
            }
        }
        lemma_same_remote(s.config.pages, w, w1, (page + 1) as u32);
        let upto = pages_written(s.config.pages, w, page) as int;
        lemma_items_in_same_remote(w, w1, 0, upto);
        let rest = if fetch_over(s.config.pages, (page + 1) as u32) {
            lemma_second_pass_ends(s1, w1, (page + 1) as u32)
        } else {
            lemma_fetching_ends(s1, w1, (page + 1) as u32)
        };
        let tail = run(then1.0, w1, then1.1, rest);
        assert(run(s1, w, step1, rest + 1).signals == step1.signals + tail.signals);
        assert(run(s0, w, step0, rest + 2).signals == step0.signals + (step1.signals
            + tail.signals));
        lemma_increments_concat(step1.signals, tail.signals);
        lemma_increments_concat(step0.signals, step1.signals + tail.signals);
        rest + 2
    }
}

/// Termination and count. In a world without faults every run comes to
/// its natural end, and by then it has counted each item of each page it
/// visited exactly once: given the fuel this returns, the run of the query
/// from its start ends done with so many items counted as processed.
pub proof fn lemma_run_ends(config: EHandlerView, mode: Mode, w: World) -> (fuel: nat)
    requires
        pages_fit(w),
    ensures
        run_from_start(config, mode, w, fuel).state.phase is Done,
        increments(run_from_start(config, mode, w, fuel).signals) == items_visited(config, mode, w),
{
    let s = initial(config, mode);
    let first = next(s, EventView::Start);
    let clean = World { kept: Map::empty(), ..w };
    lemma_increments_of_fixed_signals();
    lemma_increments_concat(start_signals(), completion_signals());
    assert(pages_fit(clean)) by {
        assert forall|j: int| #[trigger] remote_page(clean, j).len() <= usize::MAX by {
            assert(remote_page(clean, j) == remote_page(w, j));
        }
    }
    lemma_same_remote(config.pages, w, clean, 0);
    lemma_items_in_same_remote(w, clean, 0, pages_written(config.pages, w, 0) as int);
    if first.1.action is Stop {
        0
    } else if mode == Mode::Bulk {
        let begun = begin_fetch(s, 0);
        let fuel = lemma_fetching_ends(s, clean, 0);
        lemma_signals_follow_the_first(first.0, clean, begun.1, start_signals(), fuel);
        lemma_increments_concat(start_signals(), run(begun.0, clean, begun.1, fuel).signals);
        fuel
    } else {
        let s0 = first.0;
        let posts = remote_page(clean, 0);
        let then = next(s0, EventView::Page(posts));
        lemma_next_is_coherent(s0, EventView::Page(posts));
        if then.1.action is Stop {
            assert(run(then.0, clean, then.1, 0).signals == then.1.signals);
            lemma_increments_concat(first.1.signals, then.1.signals);
            lemma_increments_concat(Seq::<Signal>::empty(), completion_signals());
            1
        } else {
            let rest = lemma_processing_ends(then.0, clean, then.1);
            lemma_increments_concat(first.1.signals, run(then.0, clean, then.1, rest).signals);
            rest + 1
        }
    }
}

/// The signals of a run are those of its first step followed by the rest:
/// signals put before the first step come before all others.
pub proof fn lemma_signals_follow_the_first(
    s: OrchestratorView,
    w: World,
    step: StepView,
    before: Seq<Signal>,
    fuel: nat,
)
    ensures
        run(
            s,
            w,
            StepView { signals: before + step.signals, ..step },
            fuel,
        ).signals == before + run(s, w, step, fuel).signals,
        run(s, w, StepView { signals: before + step.signals, ..step }, fuel).state == run(
            s,
            w,
            step,
            fuel,
        ).state,
{
    if fuel == 0 || step.action is Stop {
    } else {
        let answer = respond(w, s, step.action);
    }
}

/// A run removes no file.
pub proof fn lemma_files_grow(s: OrchestratorView, w: World, step: StepView, fuel: nat)
    ensures
        w.files.subset_of(run(s, w, step, fuel).world.files),
    decreases fuel,
{
    if fuel == 0 || step.action is Stop {
    } else {
        let answer = respond(w, s, step.action);
        let then = next(s, answer.1);
        lemma_files_grow(then.0, answer.0, then.1, (fuel - 1) as nat);
    }
}

/// A run replayed in a world that already holds every file the run is
/// going to leave behind takes the same course, sends the same signals and
/// transfers nothing.
pub proof fn lemma_replay(
    s: OrchestratorView,
    w: World,
    step: StepView,
    fuel: nat,
    again: World,
    step_again: StepView,
    more: nat,
)
    requires
        run(s, w, step, fuel).state.phase is Done,
        coherent(s, step),
        !(step.action is Transfer),
        step_again.action == step.action,
        step_again.signals == step.signals,
        again.remote == w.remote,
        again.kept == w.kept,
        run(s, w, step, fuel).world.files.subset_of(again.files),
        more >= fuel,
    ensures
        run(s, again, step_again, more).state == run(s, w, step, fuel).state,
        run(s, again, step_again, more).signals == run(s, w, step, fuel).signals,
        run(s, again, step_again, more).fetches == run(s, w, step, fuel).fetches,
        run(s, again, step_again, more).persists == run(s, w, step, fuel).persists,
        run(s, again, step_again, more).transfers == 0,
        run(s, again, step_again, more).bytes == 0,
        run(s, again, step_again, more).world.files == again.files,
    decreases fuel,
{
    if step.action is Stop {
    } else {
        let a1 = respond(w, s, step.action);
        let a2 = respond(again, s, step.action);
        let n1 = next(s, a1.1);
        let n2 = next(s, a2.1);
        lemma_next_is_coherent(s, a1.1);
        lemma_next_is_coherent(s, a2.1);
        if a1.1 == a2.1 {
            if n1.1.action is Transfer {
                // The first run is about to transfer the probed item: the
                // file it leaves behind is there in the replay, which
                // would have found it.
                lemma_transfer_needs_source(s, a1.1);
                let b1 = respond(a1.0, n1.0, n1.1.action);
                let m1 = next(n1.0, b1.1);
                lemma_files_grow(m1.0, b1.0, m1.1, (fuel - 2) as nat);
            } else {
                lemma_replay(n1.0, a1.0, n1.1, (fuel - 1) as nat, a2.0, n2.1, (more - 1) as nat);
            }
        } else {
            // Only a probe can be answered differently: the file is there
            // in the replay and was not in the first run.
            lemma_files_grow(n1.0, a1.0, n1.1, (fuel - 1) as nat);
            assert(!(n2.1.action is Transfer)) by {
                if n2.1.action is Transfer {
                    lemma_transfer_needs_source(s, a2.1);
                }
            }
            if n1.1.action is Transfer {
                lemma_transfer_needs_source(s, a1.1);
                let b1 = respond(a1.0, n1.0, n1.1.action);
                let m1 = next(n1.0, b1.1);
                lemma_next_is_coherent(n1.0, b1.1);
                assert(!(m1.1.action is Transfer)) by {
                    if m1.1.action is Transfer {
                        lemma_transfer_needs_source(n1.0, b1.1);
                    }
                }
                lemma_replay(m1.0, b1.0, m1.1, (fuel - 2) as nat, a2.0, n2.1, (more - 1) as nat);
            } else {
                lemma_replay(n1.0, a1.0, n1.1, (fuel - 1) as nat, a2.0, n2.1, (more - 1) as nat);
            }
        }
    }
}

/// Idempotence. When a query has run to its natural end, the same query
/// run again against the same remote dataset, in a world that holds the
/// files the first run left behind, comes to its natural end too, sends
/// the observer the very same signals, so the progress counter reaches
/// the same total, and transfers nothing: no byte is written.
pub proof fn lemma_second_run_writes_nothing(
    config: EHandlerView,
    mode: Mode,
    w: World,
    fuel: nat,
    again: World,
    more: nat,
)
    requires
        run_from_start(config, mode, w, fuel).state.phase is Done,
        again.remote == w.remote,
        run_from_start(config, mode, w, fuel).world.files.subset_of(again.files),
        more >= fuel,
    ensures
        run_from_start(config, mode, again, more).state.phase is Done,
        run_from_start(config, mode, again, more).signals == run_from_start(
            config,
            mode,
            w,
            fuel,
        ).signals,
        run_from_start(config, mode, again, more).transfers == 0,
        run_from_start(config, mode, again, more).bytes == 0,
        run_from_start(config, mode, again, more).world.files == again.files,
{
    let s = initial(config, mode);
    let first = next(s, EventView::Start);
    lemma_next_is_coherent(s, EventView::Start);
    assert(!(first.1.action is Transfer)) by {
        if first.1.action is Transfer {
            lemma_transfer_needs_source(s, EventView::Start);
        }
    }
    lemma_replay(
        first.0,
        World { kept: Map::empty(), ..w },
        first.1,
        fuel,
        World { kept: Map::empty(), ..again },
        first.1,
        more,
    );
}

/// Cancellation in mid-run. Whatever state a run under way is in and
/// whatever the observer has taken so far, once the observer has taken
/// what the cancelled run sends it is idle with its counter at zero and no
/// run outstanding; and the run, being over, sends nothing after that, so
/// the counter is not counted up again.
pub proof fn lemma_cancellation_leaves_observer_idle(
    s: OrchestratorView,
    observer: ProgressState,
    earlier: Seq<Signal>,
)
    requires
        in_flight(s.phase),
    ensures
        next(s, EventView::Cancel).0.phase is Cancelled,
        next(s, EventView::Cancel).1.action is Stop,
        !apply_all(observer, earlier + next(s, EventView::Cancel).1.signals).downloading_status,
        apply_all(observer, earlier + next(s, EventView::Cancel).1.signals).dl_count == 0,
        !apply_all(observer, earlier + next(s, EventView::Cancel).1.signals).task_active,
        forall|e: EventView| #[trigger]
            next(next(s, EventView::Cancel).0, e) == (next(s, EventView::Cancel).0, quiet()),
{
    lemma_cancel_ends_the_run(s);
    lemma_cancel_resets_observer(observer, earlier);
    let cancelled = next(s, EventView::Cancel).0;
    assert forall|e: EventView| #[trigger] next(cancelled, e) == (cancelled, quiet()) by {
        lemma_over_is_final(cancelled, e);
    }
}

} // verus!
