//! The download orchestrator: a state machine from state and event to next
//! state and action.
//!
//! The machine never performs outside work. Each step hands out one
//! [`Action`] for the caller to perform, together with the signals to send
//! to the observer, and expects the matching [`Event`] next. A caller that
//! honours a cancellation token checks it before it performs an action and
//! hands in [`Event::Cancel`] in place of the action's event.
//!
//! Progress is reported with the step that finishes an item, so the state
//! in which a run reports is not one the machine rests in.

use crate::channel_handler::{
    cancel_signals, completion_signals, failure_signals, start_signals, Signal,
};
use crate::e_handler::{
    fetch_over, request_of, EHandler, EHandlerView, Mode, Request, RequestView,
};
use crate::funcs::{
    artifact_name, download_path, file_name, file_path, page_file_path, page_path, resolve,
    source_url,
};
use crate::type_defs::api_defs::{Post, PostView, Posts};
use vstd::prelude::*;

verus! {

/// Where a run stands.
#[derive(Clone, Copy, Debug, PartialEq, Eq, Structural)]
pub enum Phase {
    /// Not started.
    Idle,
    /// Waiting for the API to answer the request for a page.
    Fetching { page: u32 },
    /// Bulk mode, first pass: waiting for a fetched page to be written.
    Persisting { page: u32 },
    /// Bulk mode, second pass: waiting for a written page to be read back.
    Loading { page: u32 },
    /// Waiting to learn whether the file of an item exists already.
    Resolving { page: u32, item: usize },
    /// Waiting for the transfer of an item.
    Transferring { page: u32, item: usize },
    /// Every page is processed.
    Done,
    /// Cancelled on request.
    Cancelled,
    /// Given up on an error that is fatal to the run.
    Failed,
}

/// What became of one item.
#[derive(Clone, Copy, Debug, PartialEq, Eq, Structural)]
pub enum Outcome {
    /// Its file was there already; nothing was transferred.
    AlreadyExists,
    /// It has no source; nothing was transferred.
    NoSource,
    /// It was transferred, in so many bytes.
    Downloaded(u64),
    /// Its transfer failed; the run went on.
    TransferFailed,
}

/// The account of one finished item, for the caller's log.
#[derive(Debug, Clone)]
pub struct ItemReport {
    pub name: String,
    pub outcome: Outcome,
}

/// What the caller reports back.
#[derive(Debug, Clone)]
pub enum Event {
    /// The run is to begin.
    Start,
    /// The page that was asked for, from the API or read back from disk.
    Page(Posts),
    /// The page handed out for keeping is written.
    Stored,
    /// Whether the probed file exists.
    Probed(bool),
    /// The transfer is complete, in so many bytes.
    Transferred(u64),
    /// The action failed.
    Failed,
    /// Cancellation was requested.
    Cancel,
}

/// What the caller is to do next.
#[derive(Debug, Clone)]
pub enum Action {
    /// Send the request and report the page, or the failure.
    Fetch(Request),
    /// Write the page to the path and report that it is stored, or the failure.
    Persist { path: String, page: Posts },
    /// Read the page at the path back and report it, or the failure.
    Load { path: String },
    /// Report whether a file exists at the path.
    Probe { path: String },
    /// Stream the URL to a new file at the path and report the bytes
    /// written, or the failure.
    Transfer { url: String, path: String },
    /// Nothing: the run is over, or has not begun.
    Stop,
}

/// One step of a run: the signals to send, in order, the item that was
/// finished by it, if any, and what to do next.
#[derive(Debug, Clone)]
pub struct Step {
    pub signals: Vec<Signal>,
    pub report: Option<ItemReport>,
    pub action: Action,
}

/// The orchestrator of one run.
#[derive(Debug)]
pub struct Orchestrator {
    config: EHandler,
    mode: Mode,
    phase: Phase,
    posts: Vec<Post>,
    persisted: u32,
}

/// The account of an item with its name as a character sequence.
pub struct ItemReportView {
    pub name: Seq<char>,
    pub outcome: Outcome,
}

/// An event with the page it carries as a sequence of posts.
pub enum EventView {
    Start,
    Page(Seq<PostView>),
    Stored,
    Probed(bool),
    Transferred(u64),
    Failed,
    Cancel,
}

/// An action with its texts as character sequences.
pub enum ActionView {
    Fetch(RequestView),
    Persist { path: Seq<char>, page: Seq<PostView> },
    Load { path: Seq<char> },
    Probe { path: Seq<char> },
    Transfer { url: Seq<char>, path: Seq<char> },
    Stop,
}

/// A step with its signals as a sequence.
pub struct StepView {
    pub signals: Seq<Signal>,
    pub report: Option<ItemReportView>,
    pub action: ActionView,
}

/// The state of a run: its configuration and mode, where it stands, the
/// page whose items it is processing, and, in bulk mode, how many pages the
/// first pass has written.
pub struct OrchestratorView {
    pub config: EHandlerView,
    pub mode: Mode,
    pub phase: Phase,
    pub posts: Seq<PostView>,
    pub persisted: u32,
}

impl View for ItemReport {
    type V = ItemReportView;

    open spec fn view(&self) -> ItemReportView {
        ItemReportView { name: self.name@, outcome: self.outcome }
    }
}

impl View for Event {
    type V = EventView;

    open spec fn view(&self) -> EventView {
        match self {
            Event::Start => EventView::Start,
            Event::Page(posts) => EventView::Page(posts@),
            Event::Stored => EventView::Stored,
            Event::Probed(exists) => EventView::Probed(*exists),
            Event::Transferred(bytes) => EventView::Transferred(*bytes),
            Event::Failed => EventView::Failed,
            Event::Cancel => EventView::Cancel,
        }
    }
}

impl View for Action {
    type V = ActionView;

    open spec fn view(&self) -> ActionView {
        match self {
            Action::Fetch(request) => ActionView::Fetch(request@),
            Action::Persist { path, page } => ActionView::Persist { path: path@, page: page@ },
            Action::Load { path } => ActionView::Load { path: path@ },
            Action::Probe { path } => ActionView::Probe { path: path@ },
            Action::Transfer { url, path } => ActionView::Transfer { url: url@, path: path@ },
            Action::Stop => ActionView::Stop,
        }
    }
}

impl View for Step {
    type V = StepView;

    open spec fn view(&self) -> StepView {
        StepView {
            signals: self.signals@,
            report: match self.report {
                Some(report) => Some(report@),
                None => None,
            },
            action: self.action@,
        }
    }
}

impl View for Orchestrator {
    type V = OrchestratorView;

    closed spec fn view(&self) -> OrchestratorView {
        OrchestratorView {
            config: self.config@,
            mode: self.mode,
            phase: self.phase,
            posts: Seq::new(self.posts@.len(), |i: int| self.posts@[i]@),
            persisted: self.persisted,
        }
    }
}

/// A run that has not started.
pub open spec fn initial(config: EHandlerView, mode: Mode) -> OrchestratorView {
    OrchestratorView { config, mode, phase: Phase::Idle, posts: Seq::empty(), persisted: 0 }
}

/// Whether a run is under way: started and not over.
pub open spec fn in_flight(phase: Phase) -> bool {
    !(phase is Idle || phase is Done || phase is Cancelled || phase is Failed)
}

/// The step that asks for nothing and says nothing.
pub open spec fn quiet() -> StepView {
    StepView { signals: Seq::empty(), report: None, action: ActionView::Stop }
}

/// A step that asks for an action and says nothing.
pub open spec fn ask(action: ActionView) -> StepView {
    StepView { signals: Seq::empty(), report: None, action }
}

/// A transition with signals sent, and an item reported, before what the
/// transition itself sends.
pub open spec fn prefixed(
    signals: Seq<Signal>,
    report: Option<ItemReportView>,
    rest: (OrchestratorView, StepView),
) -> (OrchestratorView, StepView) {
    (rest.0, StepView { signals: signals + rest.1.signals, report, action: rest.1.action })
}

/// The natural end of a run.
pub open spec fn finish(s: OrchestratorView) -> (OrchestratorView, StepView) {
    (
        OrchestratorView { phase: Phase::Done, ..s },
        StepView { signals: completion_signals(), report: None, action: ActionView::Stop },
    )
}

/// The end of a run on an error that is fatal to it.
pub open spec fn fail(s: OrchestratorView) -> (OrchestratorView, StepView) {
    (
        OrchestratorView { phase: Phase::Failed, ..s },
        StepView { signals: failure_signals(), report: None, action: ActionView::Stop },
    )
}

/// The end of a run on request.
pub open spec fn cancel(s: OrchestratorView) -> (OrchestratorView, StepView) {
    (
        OrchestratorView { phase: Phase::Cancelled, ..s },
        StepView { signals: cancel_signals(), report: None, action: ActionView::Stop },
    )
}

/// Asking the API for the page with index `page`.
pub open spec fn begin_fetch(s: OrchestratorView, page: u32) -> (OrchestratorView, StepView) {
    (
        OrchestratorView { phase: Phase::Fetching { page }, ..s },
        ask(ActionView::Fetch(request_of(s.config, s.mode, page))),
    )
}

/// Asking for the written page with index `page` to be read back.
pub open spec fn begin_load(s: OrchestratorView, page: u32) -> (OrchestratorView, StepView) {
    (
        OrchestratorView { phase: Phase::Loading { page }, ..s },
        ask(ActionView::Load { path: page_file_path((page + 1) as nat) }),
    )
}

/// The second pass of a bulk run over the `persisted` pages the first has
/// written: it reads the first of them back, or ends the run where there
/// is none.
pub open spec fn begin_second_pass(s: OrchestratorView, persisted: u32) -> (
    OrchestratorView,
    StepView,
) {
    let s = OrchestratorView { persisted, ..s };
    if persisted == 0 {
        finish(s)
    } else {
        begin_load(s, 0)
    }
}

/// Asking whether the file of the item with index `item` exists.
pub open spec fn begin_item(s: OrchestratorView, page: u32, item: usize) -> (
    OrchestratorView,
    StepView,
) {
    (
        OrchestratorView { phase: Phase::Resolving { page, item }, ..s },
        ask(ActionView::Probe { path: download_path(s.posts[item as int]) }),
    )
}

/// What follows the last item of a page: the next written page in the
/// second pass of a bulk run, the end of the run otherwise.
pub open spec fn after_page(s: OrchestratorView, page: u32) -> (OrchestratorView, StepView) {
    if s.mode == Mode::Bulk && page + 1 < s.persisted {
        begin_load(s, (page + 1) as u32)
    } else {
        finish(s)
    }
}

/// What follows an item: the next item of the page, or what follows the page.
pub open spec fn after_item(s: OrchestratorView, page: u32, item: usize) -> (
    OrchestratorView,
    StepView,
) {
    if item < usize::MAX && item + 1 < s.posts.len() {
        begin_item(s, page, (item + 1) as usize)
    } else {
        after_page(s, page)
    }
}

/// Taking up a page for processing: its first item, or what follows the
/// page where it is empty.
pub open spec fn begin_page(s: OrchestratorView, page: u32, posts: Seq<PostView>) -> (
    OrchestratorView,
    StepView,
) {
    let s = OrchestratorView { posts, ..s };
    if posts.len() == 0 {
        after_page(s, page)
    } else {
        begin_item(s, page, 0)
    }
}

/// The account of an item.
pub open spec fn report_of(post: PostView, outcome: Outcome) -> Option<ItemReportView> {
    Some(ItemReportView { name: artifact_name(post), outcome })
}

/// The beginning of a run. Favourites mode without a user has nothing to
/// do and ends at once, as does a bulk run whose page bound is reached
/// before the first page.
pub open spec fn start(s: OrchestratorView) -> (OrchestratorView, StepView) {
    prefixed(
        start_signals(),
        None,
        match s.mode {
            Mode::Favourites => if s.config.username.len() == 0 {
                finish(s)
            } else {
                begin_fetch(s, 0)
            },
            Mode::Tags => begin_fetch(s, 0),
            Mode::Bulk => if fetch_over(s.config.pages, 0) {
                begin_second_pass(s, 0)
            } else {
                begin_fetch(s, 0)
            },
        },
    )
}

/// A page has come from the API. The single-page modes process it. The
/// first pass of a bulk run hands it out to be written, unless it is
/// empty: the page with index `page` is then the first without items, and
/// the second pass begins over the `page` pages written before it.
pub open spec fn on_fetched(s: OrchestratorView, page: u32, posts: Seq<PostView>) -> (
    OrchestratorView,
    StepView,
) {
    match s.mode {
        Mode::Bulk => if posts.len() == 0 {
            begin_second_pass(s, page)
        } else {
            (
                OrchestratorView { phase: Phase::Persisting { page }, ..s },
                ask(ActionView::Persist { path: page_file_path((page + 1) as nat), page: posts }),
            )
        },
        _ => begin_page(s, page, posts),
    }
}

/// A fetched page is written: the next page is asked for, unless the fetch
/// loop is over, and then the second pass begins.
pub open spec fn on_stored(s: OrchestratorView, page: u32) -> (OrchestratorView, StepView) {
    if page == u32::MAX {
        fail(s)
    } else if fetch_over(s.config.pages, (page + 1) as u32) {
        begin_second_pass(s, (page + 1) as u32)
    } else {
        begin_fetch(s, (page + 1) as u32)
    }
}

/// The probe of an item has answered. A file that exists is not
/// transferred again, and an item without a source is not transferred at
/// all; both count as processed. Any other item is transferred from its
/// source.
pub open spec fn on_probed(s: OrchestratorView, page: u32, item: usize, exists: bool) -> (
    OrchestratorView,
    StepView,
) {
    if item >= s.posts.len() {
        fail(s)
    } else {
        let post = s.posts[item as int];
        if exists {
            prefixed(
                seq![Signal::Count(1)],
                report_of(post, Outcome::AlreadyExists),
                after_item(s, page, item),
            )
        } else {
            match source_url(post, s.config.lower_quality) {
                None => prefixed(
                    seq![Signal::Count(1)],
                    report_of(post, Outcome::NoSource),
                    after_item(s, page, item),
                ),
                Some(url) => (
                    OrchestratorView { phase: Phase::Transferring { page, item }, ..s },
                    ask(ActionView::Transfer { url, path: download_path(post) }),
                ),
            }
        }
    }
}

/// The transfer of an item has ended. A complete one counts as processed;
/// a failed one counts as a failure, and the run goes on either way.
pub open spec fn on_transfer_end(
    s: OrchestratorView,
    page: u32,
    item: usize,
    bytes: Option<u64>,
) -> (OrchestratorView, StepView) {
    if item >= s.posts.len() {
        fail(s)
    } else {
        let post = s.posts[item as int];
        match bytes {
            Some(n) => prefixed(
                seq![Signal::Count(1)],
                report_of(post, Outcome::Downloaded(n)),
                after_item(s, page, item),
            ),
            None => prefixed(
                seq![Signal::Failures(1)],
                report_of(post, Outcome::TransferFailed),
                after_item(s, page, item),
            ),
        }
    }
}

/// The transition function of the orchestrator.
///
/// Before the start only `Start` is heard, and after the end nothing is.
/// A run under way ends on `Cancel`, goes on with the event it waits for,
/// and fails on any other; the one failure it survives is that of a
/// transfer.
pub open spec fn next(s: OrchestratorView, e: EventView) -> (OrchestratorView, StepView) {
    match s.phase {
        Phase::Idle => match e {
            EventView::Start => start(s),
            _ => (s, quiet()),
        },
        Phase::Done | Phase::Cancelled | Phase::Failed => (s, quiet()),
        Phase::Fetching { page } => match e {
            EventView::Cancel => cancel(s),
            EventView::Page(posts) => on_fetched(s, page, posts),
            _ => fail(s),
        },
        Phase::Persisting { page } => match e {
            EventView::Cancel => cancel(s),
            EventView::Stored => on_stored(s, page),
            _ => fail(s),
        },
        Phase::Loading { page } => match e {
            EventView::Cancel => cancel(s),
            EventView::Page(posts) => begin_page(s, page, posts),
            _ => fail(s),
        },
        Phase::Resolving { page, item } => match e {
            EventView::Cancel => cancel(s),
            EventView::Probed(exists) => on_probed(s, page, item, exists),
            _ => fail(s),
        },
        Phase::Transferring { page, item } => match e {
            EventView::Cancel => cancel(s),
            EventView::Transferred(bytes) => on_transfer_end(s, page, item, Some(bytes)),
            EventView::Failed => on_transfer_end(s, page, item, None),
            _ => fail(s),
        },
    }
}

/// A transfer is asked for in one case only: the probed file of an item
/// does not exist and the item has a source. The transfer then reads from
/// that source and writes to the item's download path. So an item without
/// a source is never handed to the transfer unit.
pub proof fn lemma_transfer_needs_source(s: OrchestratorView, e: EventView)
    requires
        next(s, e).1.action is Transfer,
    ensures
        e == EventView::Probed(false),
        s.phase matches Phase::Resolving { page, item } && item < s.posts.len() && next(
            s,
            e,
        ).0.phase == (Phase::Transferring { page, item }) && next(s, e).1.action == (
        ActionView::Transfer {
            url: source_url(s.posts[item as int], s.config.lower_quality)->0,
            path: download_path(s.posts[item as int]),
        }) && source_url(s.posts[item as int], s.config.lower_quality) is Some,
{
}

/// An item without a source is counted as processed and reported as such,
/// whether or not its file exists, and nothing is transferred for it.
pub proof fn lemma_no_source_is_skipped(s: OrchestratorView, page: u32, item: usize, exists: bool)
    requires
        s.phase == (Phase::Resolving { page, item }),
        item < s.posts.len(),
        source_url(s.posts[item as int], s.config.lower_quality) is None,
    ensures
        !(next(s, EventView::Probed(exists)).1.action is Transfer),
        !(next(s, EventView::Probed(exists)).0.phase is Transferring),
        next(s, EventView::Probed(exists)).1.signals.len() > 0,
        next(s, EventView::Probed(exists)).1.signals[0] == Signal::Count(1),
        !exists ==> next(s, EventView::Probed(exists)).1.report == report_of(
            s.posts[item as int],
            Outcome::NoSource,
        ),
{
}

/// Cancellation ends a run that is under way, from whatever state: the
/// run is cancelled, asks for nothing more, and sends the reset signals
/// and no others.
pub proof fn lemma_cancel_ends_the_run(s: OrchestratorView)
    requires
        in_flight(s.phase),
    ensures
        next(s, EventView::Cancel).0 == (OrchestratorView { phase: Phase::Cancelled, ..s }),
        next(s, EventView::Cancel).1.signals == cancel_signals(),
        next(s, EventView::Cancel).1.report is None,
        next(s, EventView::Cancel).1.action is Stop,
{
}

/// A run that is over stays over: whatever event comes, the state is
/// unchanged, nothing is sent and nothing is asked for.
pub proof fn lemma_over_is_final(s: OrchestratorView, e: EventView)
    requires
        s.phase is Done || s.phase is Cancelled || s.phase is Failed,
    ensures
        next(s, e) == (s, quiet()),
{
}

/// Whether a step asks for what its state waits for: nothing outside a
/// run, a request while fetching, the page at hand to be written to or read
/// from its path, the probe of the item at hand while resolving, the
/// transfer of the item at hand from its source while transferring.
pub open spec fn coherent(s: OrchestratorView, step: StepView) -> bool {
    &&& !in_flight(s.phase) ==> step.action is Stop
    &&& s.phase is Fetching ==> step.action is Fetch
    &&& s.phase matches Phase::Persisting { page } ==> step.action is Persist && step.action
        ->Persist_path == page_file_path((page + 1) as nat)
    &&& s.phase matches Phase::Loading { page } ==> page < s.persisted && step.action == (
    ActionView::Load { path: page_file_path((page + 1) as nat) })
    &&& s.phase matches Phase::Resolving { page, item } ==> item < s.posts.len() && step.action
        == (ActionView::Probe { path: download_path(s.posts[item as int]) })
    &&& s.phase matches Phase::Transferring { page, item } ==> item < s.posts.len() && step.action
        == (ActionView::Transfer {
        url: source_url(s.posts[item as int], s.config.lower_quality)->0,
        path: download_path(s.posts[item as int]),
    }) && source_url(s.posts[item as int], s.config.lower_quality) is Some
}

/// Every step the orchestrator takes asks for what its new state waits for.
pub proof fn lemma_next_is_coherent(s: OrchestratorView, e: EventView)
    ensures
        coherent(next(s, e).0, next(s, e).1),
{
}

/// The view of an optional report.
pub open spec fn report_view(report: Option<ItemReport>) -> Option<ItemReportView> {
    match report {
        Some(r) => Some(r@),
        None => None,
    }
}

impl Orchestrator {
    /// A run of `config` in `mode`, not started.
    pub fn new(config: EHandler, mode: Mode) -> (run: Orchestrator)
        ensures
            run@ == initial(config@, mode),
    {
        let run = Orchestrator { config, mode, phase: Phase::Idle, posts: Vec::new(), persisted: 0 };
        assert(run@.posts =~= Seq::<PostView>::empty());
        run
    }

    /// Where the run stands.
    pub fn phase(&self) -> (phase: Phase)
        ensures
            phase == self@.phase,
    {
        self.phase
    }

    /// The traversal policy of the run.
    pub fn mode(&self) -> (mode: Mode)
        ensures
            mode == self@.mode,
    {
        self.mode
    }

    /// The configuration of the run.
    pub fn config(&self) -> (config: &EHandler)
        ensures
            config@ == self@.config,
    {
        &self.config
    }

    /// In bulk mode, the number of pages the first pass has written.
    pub fn persisted(&self) -> (persisted: u32)
        ensures
            persisted == self@.persisted,
    {
        self.persisted
    }

    /// Whether the run is over: ended, cancelled or failed.
    pub fn is_over(&self) -> (over: bool)
        ensures
            over == (self@.phase is Done || self@.phase is Cancelled || self@.phase is Failed),
    {
        match self.phase {
            Phase::Done | Phase::Cancelled | Phase::Failed => true,
            _ => false,
        }
    }

    /// Ends the run at its natural end.
    fn finish(&mut self, signals: Vec<Signal>, report: Option<ItemReport>) -> (out: Step)
        ensures
            (final(self)@, out@) == prefixed(signals@, report_view(report), finish(old(self)@)),
    {
        let ghost before = signals@;
        let mut signals = signals;
        signals.push(Signal::Count(0));
        signals.push(Signal::Status(false));
        signals.push(Signal::Finished(true));
        self.phase = Phase::Done;
        let out = Step { signals, report, action: Action::Stop };
        assert(out@.signals =~= before + completion_signals());
        out
    }

    /// Ends the run on a fatal error.
    fn fail(&mut self) -> (out: Step)
        ensures
            (final(self)@, out@) == fail(old(self)@),
    {
        let mut signals: Vec<Signal> = Vec::new();
        signals.push(Signal::Count(0));
        signals.push(Signal::Status(false));
        signals.push(Signal::Error(true));
        self.phase = Phase::Failed;
        let out = Step { signals, report: None, action: Action::Stop };
        assert(out@.signals =~= failure_signals());
        out
    }

    /// Ends the run on request.
    fn cancel(&mut self) -> (out: Step)
        ensures
            (final(self)@, out@) == cancel(old(self)@),
    {
        let mut signals: Vec<Signal> = Vec::new();
        signals.push(Signal::Count(0));
        signals.push(Signal::Status(false));
        self.phase = Phase::Cancelled;
        let out = Step { signals, report: None, action: Action::Stop };
        assert(out@.signals =~= cancel_signals());
        out
    }

    /// Asks the API for a page.
    fn begin_fetch(&mut self, page: u32, signals: Vec<Signal>) -> (out: Step)
        ensures
            (final(self)@, out@) == prefixed(signals@, None, begin_fetch(old(self)@, page)),
    {
        let request: Request = self.config.handle_request(self.mode, page);
        self.phase = Phase::Fetching { page };
        Step { signals, report: None, action: Action::Fetch(request) }
    }

    /// Asks for a written page to be read back.
    fn begin_load(&mut self, page: u32, signals: Vec<Signal>, report: Option<ItemReport>) -> (out:
        Step)
        ensures
            (final(self)@, out@) == prefixed(
                signals@,
                report_view(report),
                begin_load(old(self)@, page),
            ),
    {
        let path: String = page_path(page as u64 + 1);
        self.phase = Phase::Loading { page };
        Step { signals, report, action: Action::Load { path } }
    }

    /// Begins the second pass of a bulk run.
    fn begin_second_pass(&mut self, persisted: u32, signals: Vec<Signal>) -> (out: Step)
        ensures
            (final(self)@, out@) == prefixed(
                signals@,
                None,
                begin_second_pass(old(self)@, persisted),
            ),
    {
        self.persisted = persisted;
        if persisted == 0 {
            self.finish(signals, None)
        } else {
            self.begin_load(0, signals, None)
        }
    }

    /// Asks whether the file of an item exists.
    fn begin_item(
        &mut self,
        page: u32,
        item: usize,
        signals: Vec<Signal>,
        report: Option<ItemReport>,
    ) -> (out: Step)
        requires
            item < old(self)@.posts.len(),
        ensures
            (final(self)@, out@) == prefixed(
                signals@,
                report_view(report),
                begin_item(old(self)@, page, item),
            ),
    {
        let path: String = file_path(&self.posts[item]);
        self.phase = Phase::Resolving { page, item };
        Step { signals, report, action: Action::Probe { path } }
    }

    /// Goes on after the last item of a page.
    fn after_page(&mut self, page: u32, signals: Vec<Signal>, report: Option<ItemReport>) -> (out:
        Step)
        ensures
            (final(self)@, out@) == prefixed(
                signals@,
                report_view(report),
                after_page(old(self)@, page),
            ),
    {
        if self.mode == Mode::Bulk && page < u32::MAX && page + 1 < self.persisted {
            self.begin_load(page + 1, signals, report)
        } else {
            self.finish(signals, report)
        }
    }

    /// Goes on after an item.
    fn after_item(
        &mut self,
        page: u32,
        item: usize,
        signals: Vec<Signal>,
        report: Option<ItemReport>,
    ) -> (out: Step)
        requires
            item < old(self)@.posts.len(),
        ensures
            (final(self)@, out@) == prefixed(
                signals@,
                report_view(report),
                after_item(old(self)@, page, item),
            ),
    {
        let n: usize = self.posts.len();
        if item + 1 < n {
            self.begin_item(page, item + 1, signals, report)
        } else {
            self.after_page(page, signals, report)
        }
    }

    /// Takes up a page for processing.
    fn begin_page(&mut self, page: u32, posts: Posts) -> (out: Step)
        ensures
            (final(self)@, out@) == begin_page(old(self)@, page, posts@),
    {
        self.posts = posts.posts;
        if self.posts.len() == 0 {
            self.after_page(page, Vec::new(), None)
        } else {
            self.begin_item(page, 0, Vec::new(), None)
        }
    }

    /// Begins the run.
    fn start(&mut self) -> (out: Step)
        ensures
            (final(self)@, out@) == start(old(self)@),
    {
        let mut signals: Vec<Signal> = Vec::new();
        signals.push(Signal::Count(0));
        signals.push(Signal::Failures(0));
        signals.push(Signal::Status(true));
        assert(signals@ =~= start_signals());
        match self.mode {
            Mode::Favourites => {
                if self.config.username.as_str().is_empty() {
                    self.finish(signals, None)
                } else {
                    self.begin_fetch(0, signals)
                }
            },
            Mode::Tags => self.begin_fetch(0, signals),
            Mode::Bulk => {
                if self.config.bound_reached(0) {
                    self.begin_second_pass(0, signals)
                } else {
                    self.begin_fetch(0, signals)
                }
            },
        }
    }

    /// Takes a page from the API.
    fn on_fetched(&mut self, page: u32, posts: Posts) -> (out: Step)
        ensures
            (final(self)@, out@) == on_fetched(old(self)@, page, posts@),
    {
        match self.mode {
            Mode::Bulk => {
                if posts.posts.len() == 0 {
                    self.begin_second_pass(page, Vec::new())
                } else {
                    let path: String = page_path(page as u64 + 1);
                    self.phase = Phase::Persisting { page };
                    Step {
                        signals: Vec::new(),
                        report: None,
                        action: Action::Persist { path, page: posts },
                    }
                }
            },
            _ => self.begin_page(page, posts),
        }
    }

    /// Takes the word that a page is written.
    fn on_stored(&mut self, page: u32) -> (out: Step)
        ensures
            (final(self)@, out@) == on_stored(old(self)@, page),
    {
        if page == u32::MAX {
            self.fail()
        } else if self.config.bound_reached(page + 1) {
            self.begin_second_pass(page + 1, Vec::new())
        } else {
            self.begin_fetch(page + 1, Vec::new())
        }
    }

    /// Takes the answer of a probe.
    fn on_probed(&mut self, page: u32, item: usize, exists: bool) -> (out: Step)
        ensures
            (final(self)@, out@) == on_probed(old(self)@, page, item, exists),
    {
        if item >= self.posts.len() {
            return self.fail();
        }
        let mut signals: Vec<Signal> = Vec::new();
        let name: String = file_name(&self.posts[item]);
        if exists {
            signals.push(Signal::Count(1));
            let report = Some(ItemReport { name, outcome: Outcome::AlreadyExists });
            self.after_item(page, item, signals, report)
        } else {
            match resolve(&self.posts[item], self.config.lower_quality) {
                None => {
                    signals.push(Signal::Count(1));
                    let report = Some(ItemReport { name, outcome: Outcome::NoSource });
                    self.after_item(page, item, signals, report)
                },
                Some(url) => {
                    let path: String = file_path(&self.posts[item]);
                    self.phase = Phase::Transferring { page, item };
                    Step { signals, report: None, action: Action::Transfer { url, path } }
                },
            }
        }
    }

    /// Takes the end of a transfer.
    fn on_transfer_end(&mut self, page: u32, item: usize, bytes: Option<u64>) -> (out: Step)
        ensures
            (final(self)@, out@) == on_transfer_end(old(self)@, page, item, bytes),
    {
        if item >= self.posts.len() {
            return self.fail();
        }
        let mut signals: Vec<Signal> = Vec::new();
        let name: String = file_name(&self.posts[item]);
        match bytes {
            Some(n) => {
                signals.push(Signal::Count(1));
                let report = Some(ItemReport { name, outcome: Outcome::Downloaded(n) });
                self.after_item(page, item, signals, report)
            },
            None => {
                signals.push(Signal::Failures(1));
                let report = Some(ItemReport { name, outcome: Outcome::TransferFailed });
                self.after_item(page, item, signals, report)
            },
        }
    }

    /// Takes one event and answers with the next step.
    pub fn step(&mut self, event: Event) -> (out: Step)
        ensures
            (final(self)@, out@) == next(old(self)@, event@),
    {
        match self.phase {
            Phase::Idle => match event {
                Event::Start => self.start(),
                _ => Step { signals: Vec::new(), report: None, action: Action::Stop },
            },
            Phase::Done | Phase::Cancelled | Phase::Failed => Step {
                signals: Vec::new(),
                report: None,
                action: Action::Stop,
            },
            Phase::Fetching { page } => match event {
                Event::Cancel => self.cancel(),
                Event::Page(posts) => self.on_fetched(page, posts),
                _ => self.fail(),
            },
            Phase::Persisting { page } => match event {
                Event::Cancel => self.cancel(),
                Event::Stored => self.on_stored(page),
                _ => self.fail(),
            },
            Phase::Loading { page } => match event {
                Event::Cancel => self.cancel(),
                Event::Page(posts) => self.begin_page(page, posts),
                _ => self.fail(),
            },
            Phase::Resolving { page, item } => match event {
                Event::Cancel => self.cancel(),
                Event::Probed(exists) => self.on_probed(page, item, exists),
                _ => self.fail(),
            },
            Phase::Transferring { page, item } => match event {
                Event::Cancel => self.cancel(),
                Event::Transferred(bytes) => self.on_transfer_end(page, item, Some(bytes)),
                Event::Failed => self.on_transfer_end(page, item, None),
                _ => self.fail(),
            },
        }
    }
}

} // verus!
