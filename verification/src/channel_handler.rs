//! The progress channel: the signals a run sends, the queues that carry
//! them, and the state an observer folds them into.

use crate::e_handler::Mode;
use std::collections::VecDeque;
use vstd::prelude::*;

verus! {

/// One message from a run to its observer.
#[derive(Clone, Copy, Debug, PartialEq, Eq, Structural)]
pub enum Signal {
    /// Items processed since the last such signal; `0` resets the counter.
    Count(u64),
    /// Whether a run is downloading.
    Status(bool),
    /// Whether a run has come to its natural end.
    Finished(bool),
    /// Transfers that failed since the last such signal; `0` resets the counter.
    Failures(u64),
    /// Whether a run was given up on an error that is fatal to it.
    Error(bool),
}

/// What a run sends when it starts: both counters reset, then busy.
pub open spec fn start_signals() -> Seq<Signal> {
    seq![Signal::Count(0), Signal::Failures(0), Signal::Status(true)]
}

/// What a run sends at its natural end: the counter reset, idle, finished.
pub open spec fn completion_signals() -> Seq<Signal> {
    seq![Signal::Count(0), Signal::Status(false), Signal::Finished(true)]
}

/// What a cancelled run sends, and what whoever tears a run down from
/// outside sends in its place: the counter reset, idle.
pub open spec fn cancel_signals() -> Seq<Signal> {
    seq![Signal::Count(0), Signal::Status(false)]
}

/// What a run sends when an error ends it: the counter reset, idle, failed.
pub open spec fn failure_signals() -> Seq<Signal> {
    seq![Signal::Count(0), Signal::Status(false), Signal::Error(true)]
}

/// The queues between a run and its observer, one per kind of signal.
/// Each keeps its messages in the order they were sent.
#[derive(Debug)]
pub struct GuiChannels {
    pub dl_count_channel: VecDeque<u64>,
    pub dl_status_channel: VecDeque<bool>,
    pub finished_status_channel: VecDeque<bool>,
    pub failed_count_channel: VecDeque<u64>,
    pub error_status_channel: VecDeque<bool>,
}

/// What waits on each queue, first to last.
pub struct GuiChannelsView {
    pub dl_count: Seq<u64>,
    pub dl_status: Seq<bool>,
    pub finished_status: Seq<bool>,
    pub failed_count: Seq<u64>,
    pub error_status: Seq<bool>,
}

impl View for GuiChannels {
    type V = GuiChannelsView;

    open spec fn view(&self) -> GuiChannelsView {
        GuiChannelsView {
            dl_count: self.dl_count_channel@,
            dl_status: self.dl_status_channel@,
            finished_status: self.finished_status_channel@,
            failed_count: self.failed_count_channel@,
            error_status: self.error_status_channel@,
        }
    }
}

/// Channels on which nothing waits.
pub open spec fn empty_channels() -> GuiChannelsView {
    GuiChannelsView {
        dl_count: Seq::empty(),
        dl_status: Seq::empty(),
        finished_status: Seq::empty(),
        failed_count: Seq::empty(),
        error_status: Seq::empty(),
    }
}

/// The channels after one signal is sent: it waits last on the queue of
/// its kind, and the other queues are as they were.
pub open spec fn deliver(ch: GuiChannelsView, signal: Signal) -> GuiChannelsView {
    match signal {
        Signal::Count(n) => GuiChannelsView { dl_count: ch.dl_count.push(n), ..ch },
        Signal::Status(b) => GuiChannelsView { dl_status: ch.dl_status.push(b), ..ch },
        Signal::Finished(b) => GuiChannelsView {
            finished_status: ch.finished_status.push(b),
            ..ch
        },
        Signal::Failures(n) => GuiChannelsView { failed_count: ch.failed_count.push(n), ..ch },
        Signal::Error(b) => GuiChannelsView { error_status: ch.error_status.push(b), ..ch },
    }
}

/// The channels after a list of signals is sent, first to last.
pub open spec fn deliver_all(ch: GuiChannelsView, signals: Seq<Signal>) -> GuiChannelsView
    decreases signals.len(),
{
    if signals.len() == 0 {
        ch
    } else {
        deliver(deliver_all(ch, signals.drop_last()), signals.last())
    }
}

/// What an observer knows of the run it watches.
#[derive(Clone, Copy, Debug, PartialEq, Eq, Structural)]
pub struct ProgressState {
    /// Items processed in the current run.
    pub dl_count: u64,
    /// Whether a run is downloading.
    pub downloading_status: bool,
    /// Whether the last run has come to its natural end and this was not
    /// acknowledged yet.
    pub finished: bool,
    /// Transfers that failed in the current run.
    pub failed_count: u64,
    /// Whether the last run was given up on an error and this was not
    /// acknowledged yet.
    pub error: bool,
    /// Whether a run is outstanding: started, and not yet reported idle,
    /// finished or failed. While one is, no other may start, and a stop may
    /// be asked for.
    pub task_active: bool,
}

/// The answer to a wish to start a run.
#[derive(Clone, Copy, Debug, PartialEq, Eq, Structural)]
pub enum StartDecision {
    /// The run may start; it is now the outstanding one.
    Started,
    /// Refused: another run is outstanding.
    AlreadyRunning,
    /// Refused: a bulk run over zero pages has nothing to fetch.
    NoPages,
}

/// A counter after a count signal: `0` resets it, any other number is added.
pub open spec fn counted(counter: u64, n: u64) -> int {
    if n == 0 {
        0
    } else {
        counter + n
    }
}

/// The observer's state after it takes one signal.
pub open spec fn apply(state: ProgressState, signal: Signal) -> ProgressState {
    match signal {
        Signal::Count(n) => ProgressState { dl_count: counted(state.dl_count, n) as u64, ..state },
        Signal::Status(b) => ProgressState {
            downloading_status: b,
            task_active: state.task_active && b,
            ..state
        },
        Signal::Finished(b) => ProgressState {
            finished: b,
            task_active: state.task_active && !b,
            ..state
        },
        Signal::Failures(n) => ProgressState {
            failed_count: counted(state.failed_count, n) as u64,
            ..state
        },
        Signal::Error(b) => ProgressState {
            error: b,
            task_active: state.task_active && !b,
            ..state
        },
    }
}

/// The observer's state after it takes a list of signals, first to last.
pub open spec fn apply_all(state: ProgressState, signals: Seq<Signal>) -> ProgressState
    decreases signals.len(),
{
    if signals.len() == 0 {
        state
    } else {
        apply(apply_all(state, signals.drop_last()), signals.last())
    }
}

/// Whether the observer's counters can take the signal.
pub open spec fn fits(state: ProgressState, signal: Signal) -> bool {
    match signal {
        Signal::Count(n) => counted(state.dl_count, n) <= u64::MAX,
        Signal::Failures(n) => counted(state.failed_count, n) <= u64::MAX,
        _ => true,
    }
}

/// The state of an observer that has seen no run yet.
pub open spec fn initial_progress() -> ProgressState {
    ProgressState {
        dl_count: 0,
        downloading_status: false,
        finished: false,
        failed_count: 0,
        error: false,
        task_active: false,
    }
}

/// The observer's state after it takes the first waiting count, where one
/// waits.
pub open spec fn after_count(state: ProgressState, queue: Seq<u64>) -> ProgressState {
    if queue.len() > 0 {
        apply(state, Signal::Count(queue[0]))
    } else {
        state
    }
}

/// The observer's state after it takes the first waiting status, where one
/// waits.
pub open spec fn after_status(state: ProgressState, queue: Seq<bool>) -> ProgressState {
    if queue.len() > 0 {
        apply(state, Signal::Status(queue[0]))
    } else {
        state
    }
}

/// The observer's state after it takes the first waiting finished flag,
/// where one waits.
pub open spec fn after_finished(state: ProgressState, queue: Seq<bool>) -> ProgressState {
    if queue.len() > 0 {
        apply(state, Signal::Finished(queue[0]))
    } else {
        state
    }
}

/// The observer's state after it takes the first waiting failure count,
/// where one waits.
pub open spec fn after_failures(state: ProgressState, queue: Seq<u64>) -> ProgressState {
    if queue.len() > 0 {
        apply(state, Signal::Failures(queue[0]))
    } else {
        state
    }
}

/// The observer's state after it takes the first waiting error flag, where
/// one waits.
pub open spec fn after_error(state: ProgressState, queue: Seq<bool>) -> ProgressState {
    if queue.len() > 0 {
        apply(state, Signal::Error(queue[0]))
    } else {
        state
    }
}

/// The observer's state after one poll: it has taken the first waiting
/// message of each queue, in the order count, status, finished, failures,
/// error.
pub open spec fn refreshed(state: ProgressState, ch: GuiChannelsView) -> ProgressState {
    after_error(
        after_failures(
            after_finished(
                after_status(after_count(state, ch.dl_count), ch.dl_status),
                ch.finished_status,
            ),
            ch.failed_count,
        ),
        ch.error_status,
    )
}

/// A flag queue after one poll: its first message is gone, and where that
/// message raised the flag, the acknowledgement that lowers it again waits
/// at the end.
pub open spec fn acknowledged(queue: Seq<bool>) -> Seq<bool> {
    if queue.len() == 0 {
        queue
    } else if queue[0] {
        queue.drop_first().push(false)
    } else {
        queue.drop_first()
    }
}

/// A queue after one poll took its first message, if it had one.
pub open spec fn taken<T>(queue: Seq<T>) -> Seq<T> {
    if queue.len() == 0 {
        queue
    } else {
        queue.drop_first()
    }
}

/// The channels after one poll.
pub open spec fn polled(ch: GuiChannelsView) -> GuiChannelsView {
    GuiChannelsView {
        dl_count: taken(ch.dl_count),
        dl_status: taken(ch.dl_status),
        finished_status: acknowledged(ch.finished_status),
        failed_count: taken(ch.failed_count),
        error_status: acknowledged(ch.error_status),
    }
}

/// Whether the observer's counters can take what one poll would bring.
pub open spec fn poll_fits(state: ProgressState, ch: GuiChannelsView) -> bool {
    &&& ch.dl_count.len() > 0 ==> fits(state, Signal::Count(ch.dl_count[0]))
    &&& ch.failed_count.len() > 0 ==> fits(state, Signal::Failures(ch.failed_count[0]))
}

impl Default for GuiChannels {
    fn default() -> (channels: GuiChannels)
        ensures
            channels@ == empty_channels(),
    {
        GuiChannels {
            dl_count_channel: VecDeque::new(),
            dl_status_channel: VecDeque::new(),
            finished_status_channel: VecDeque::new(),
            failed_count_channel: VecDeque::new(),
            error_status_channel: VecDeque::new(),
        }
    }
}

impl GuiChannels {
    /// Sends one signal.
    pub fn send(&mut self, signal: Signal)
        ensures
            final(self)@ == deliver(old(self)@, signal),
    {
        match signal {
            Signal::Count(n) => self.dl_count_channel.push_back(n),
            Signal::Status(b) => self.dl_status_channel.push_back(b),
            Signal::Finished(b) => self.finished_status_channel.push_back(b),
            Signal::Failures(n) => self.failed_count_channel.push_back(n),
            Signal::Error(b) => self.error_status_channel.push_back(b),
        }
    }

    /// Sends the reset signals of a cancelled run, for a caller that tore a
    /// run down itself.
    pub fn reset(&mut self)
        ensures
            final(self)@ == deliver_all(old(self)@, cancel_signals()),
    {
        let mut signals: Vec<Signal> = Vec::new();
        signals.push(Signal::Count(0));
        signals.push(Signal::Status(false));
        assert(signals@ =~= cancel_signals());
        self.publish(&signals);
    }

    /// Sends a list of signals, first to last.
    pub fn publish(&mut self, signals: &Vec<Signal>)
        ensures
            final(self)@ == deliver_all(old(self)@, signals@),
    {
        let mut i: usize = 0;
        while i < signals.len()
            invariant
                i <= signals.len(),
                self@ == deliver_all(old(self)@, signals@.take(i as int)),
            decreases signals.len() - i,
        {
            assert(signals@.take(i as int + 1).drop_last() =~= signals@.take(i as int));
            self.send(signals[i]);
            i = i + 1;
        }
        assert(signals@.take(i as int) =~= signals@);
    }
}

impl Default for ProgressState {
    fn default() -> (state: ProgressState)
        ensures
            state == initial_progress(),
    {
        ProgressState {
            dl_count: 0,
            downloading_status: false,
            finished: false,
            failed_count: 0,
            error: false,
            task_active: false,
        }
    }
}

impl ProgressState {
    /// Takes one signal.
    pub fn receive(&mut self, signal: Signal)
        requires
            fits(*old(self), signal),
        ensures
            *final(self) == apply(*old(self), signal),
    {
        match signal {
            Signal::Count(n) => {
                if n == 0 {
                    self.dl_count = 0;
                } else {
                    self.dl_count = self.dl_count + n;
                }
            },
            Signal::Status(b) => {
                self.downloading_status = b;
                if !b {
                    self.task_active = false;
                }
            },
            Signal::Finished(b) => {
                self.finished = b;
                if b {
                    self.task_active = false;
                }
            },
            Signal::Failures(n) => {
                if n == 0 {
                    self.failed_count = 0;
                } else {
                    self.failed_count = self.failed_count + n;
                }
            },
            Signal::Error(b) => {
                self.error = b;
                if b {
                    self.task_active = false;
                }
            },
        }
    }

    /// Takes the first waiting count, if any.
    fn poll_count(&mut self, queue: &mut VecDeque<u64>)
        requires
            old(queue)@.len() > 0 ==> fits(*old(self), Signal::Count(old(queue)@[0])),
        ensures
            *final(self) == after_count(*old(self), old(queue)@),
            final(queue)@ == taken(old(queue)@),
    {
        match queue.pop_front() {
            Some(n) => {
                self.receive(Signal::Count(n));
            },
            None => {},
        }
    }

    /// Takes the first waiting status, if any.
    fn poll_status(&mut self, queue: &mut VecDeque<bool>)
        ensures
            *final(self) == after_status(*old(self), old(queue)@),
            final(queue)@ == taken(old(queue)@),
    {
        match queue.pop_front() {
            Some(b) => {
                self.receive(Signal::Status(b));
            },
            None => {},
        }
    }

    /// Takes the first waiting finished flag, if any, and acknowledges a
    /// raised one.
    fn poll_finished(&mut self, queue: &mut VecDeque<bool>)
        ensures
            *final(self) == after_finished(*old(self), old(queue)@),
            final(queue)@ == acknowledged(old(queue)@),
    {
        match queue.pop_front() {
            Some(b) => {
                self.receive(Signal::Finished(b));
                if b {
                    queue.push_back(false);
                }
            },
            None => {},
        }
    }

    /// Takes the first waiting failure count, if any.
    fn poll_failures(&mut self, queue: &mut VecDeque<u64>)
        requires
            old(queue)@.len() > 0 ==> fits(*old(self), Signal::Failures(old(queue)@[0])),
        ensures
            *final(self) == after_failures(*old(self), old(queue)@),
            final(queue)@ == taken(old(queue)@),
    {
        match queue.pop_front() {
            Some(n) => {
                self.receive(Signal::Failures(n));
            },
            None => {},
        }
    }

    /// Takes the first waiting error flag, if any, and acknowledges a
    /// raised one.
    fn poll_error(&mut self, queue: &mut VecDeque<bool>)
        ensures
            *final(self) == after_error(*old(self), old(queue)@),
            final(queue)@ == acknowledged(old(queue)@),
    {
        match queue.pop_front() {
            Some(b) => {
                self.receive(Signal::Error(b));
                if b {
                    queue.push_back(false);
                }
            },
            None => {},
        }
    }

    /// Takes the first waiting message of each queue, as one refresh of the
    /// observer does, and acknowledges a raised flag on the queue it came by.
    pub fn poll(&mut self, channels: &mut GuiChannels)
        requires
            poll_fits(*old(self), old(channels)@),
        ensures
            *final(self) == refreshed(*old(self), old(channels)@),
            final(channels)@ == polled(old(channels)@),
    {
        self.poll_count(&mut channels.dl_count_channel);
        self.poll_status(&mut channels.dl_status_channel);
        self.poll_finished(&mut channels.finished_status_channel);
        self.poll_failures(&mut channels.failed_count_channel);
        self.poll_error(&mut channels.error_status_channel);
    }

    /// Answers a wish to start a run in the given mode with the given page
    /// bound, and marks the run outstanding where it may start.
    pub fn request_start(&mut self, mode: Mode, pages: i32) -> (decision: StartDecision)
        ensures
            decision == start_decision(*old(self), mode, pages),
            *final(self) == (ProgressState {
                task_active: old(self).task_active || decision == StartDecision::Started,
                ..*old(self)
            }),
    {
        if mode == Mode::Bulk && pages == 0 {
            StartDecision::NoPages
        } else if self.task_active {
            StartDecision::AlreadyRunning
        } else {
            self.task_active = true;
            StartDecision::Started
        }
    }
}

/// Whether a run may start: a bulk run needs a page bound other than zero,
/// and any run needs that no other is outstanding.
pub open spec fn start_decision(state: ProgressState, mode: Mode, pages: i32) -> StartDecision {
    if mode == Mode::Bulk && pages == 0 {
        StartDecision::NoPages
    } else if state.task_active {
        StartDecision::AlreadyRunning
    } else {
        StartDecision::Started
    }
}

/// Taking a list of signals and then one more is taking the longer list.
pub proof fn lemma_apply_push(state: ProgressState, signals: Seq<Signal>, signal: Signal)
    ensures
        apply_all(state, signals.push(signal)) == apply(apply_all(state, signals), signal),
{
    assert(signals.push(signal).drop_last() =~= signals);
}

/// The counts among a list of signals, in order.
pub open spec fn counts_of(signals: Seq<Signal>) -> Seq<u64>
    decreases signals.len(),
{
    if signals.len() == 0 {
        Seq::empty()
    } else {
        match signals.last() {
            Signal::Count(n) => counts_of(signals.drop_last()).push(n),
            _ => counts_of(signals.drop_last()),
        }
    }
}

/// The statuses among a list of signals, in order.
pub open spec fn statuses_of(signals: Seq<Signal>) -> Seq<bool>
    decreases signals.len(),
{
    if signals.len() == 0 {
        Seq::empty()
    } else {
        match signals.last() {
            Signal::Status(b) => statuses_of(signals.drop_last()).push(b),
            _ => statuses_of(signals.drop_last()),
        }
    }
}

/// The finished flags among a list of signals, in order.
pub open spec fn finished_of(signals: Seq<Signal>) -> Seq<bool>
    decreases signals.len(),
{
    if signals.len() == 0 {
        Seq::empty()
    } else {
        match signals.last() {
            Signal::Finished(b) => finished_of(signals.drop_last()).push(b),
            _ => finished_of(signals.drop_last()),
        }
    }
}

/// Each queue preserves order: after a list of signals is sent, what
/// waited before still waits first, followed by the signals of the queue's
/// kind in the order they were sent.
pub proof fn lemma_queues_keep_order(ch: GuiChannelsView, signals: Seq<Signal>)
    ensures
        deliver_all(ch, signals).dl_count == ch.dl_count + counts_of(signals),
        deliver_all(ch, signals).dl_status == ch.dl_status + statuses_of(signals),
        deliver_all(ch, signals).finished_status == ch.finished_status + finished_of(signals),
    decreases signals.len(),
{
    if signals.len() == 0 {
    } else {
        lemma_queues_keep_order(ch, signals.drop_last());
        assert(deliver_all(ch, signals).finished_status =~= ch.finished_status + finished_of(
            signals,
        ));
    }
}

/// The items one signal counts as processed.
pub open spec fn count_of(signal: Signal) -> nat {
    match signal {
        Signal::Count(n) => n as nat,
        _ => 0,
    }
}

/// The items a list of signals counts as processed: the sum of its counts.
pub open spec fn increments(signals: Seq<Signal>) -> nat
    decreases signals.len(),
{
    if signals.len() == 0 {
        0
    } else {
        increments(signals.drop_last()) + count_of(signals.last())
    }
}

/// A list with one more signal counts what that signal adds.
pub proof fn lemma_increments_push(signals: Seq<Signal>, signal: Signal)
    ensures
        increments(signals.push(signal)) == increments(signals) + count_of(signal),
{
    assert(signals.push(signal).drop_last() =~= signals);
}

/// Two lists of signals one after the other count what each counts.
pub proof fn lemma_increments_concat(first: Seq<Signal>, second: Seq<Signal>)
    ensures
        increments(first + second) == increments(first) + increments(second),
    decreases second.len(),
{
    if second.len() == 0 {
    } else {
        lemma_increments_concat(first, second.drop_last());
        assert((first + second).drop_last() =~= first + second.drop_last());
    }
}

/// What the fixed lists of signals count: one item reported counts one, and
/// the signals at the start and at any end of a run count nothing.
pub proof fn lemma_increments_of_fixed_signals()
    ensures
        increments(Seq::<Signal>::empty()) == 0,
        increments(seq![Signal::Count(1)]) == 1,
        increments(seq![Signal::Failures(1)]) == 0,
        increments(start_signals()) == 0,
        increments(completion_signals()) == 0,
        increments(cancel_signals()) == 0,
        increments(failure_signals()) == 0,
{
    let none = Seq::<Signal>::empty();
    let reset = seq![Signal::Count(0)];
    lemma_increments_push(none, Signal::Count(1));
    lemma_increments_push(none, Signal::Failures(1));
    lemma_increments_push(none, Signal::Count(0));
    lemma_increments_push(reset, Signal::Failures(0));
    lemma_increments_push(reset.push(Signal::Failures(0)), Signal::Status(true));
    assert(start_signals() =~= reset.push(Signal::Failures(0)).push(Signal::Status(true)));
    lemma_increments_push(reset, Signal::Status(false));
    assert(cancel_signals() =~= reset.push(Signal::Status(false)));
    lemma_increments_push(cancel_signals(), Signal::Finished(true));
    assert(completion_signals() =~= cancel_signals().push(Signal::Finished(true)));
    lemma_increments_push(cancel_signals(), Signal::Error(true));
    assert(failure_signals() =~= cancel_signals().push(Signal::Error(true)));
}

/// Taking one list of signals and then another is taking them all.
pub proof fn lemma_apply_concat(state: ProgressState, first: Seq<Signal>, second: Seq<Signal>)
    ensures
        apply_all(state, first + second) == apply_all(apply_all(state, first), second),
    decreases second.len(),
{
    if second.len() == 0 {
    } else {
        lemma_apply_concat(state, first, second.drop_last());
        assert((first + second).drop_last() =~= first + second.drop_last());
    }
}

/// The reset signals of a cancelled run leave the observer idle with its
/// counter at zero and no run outstanding, whatever it had taken before
/// them.
pub proof fn lemma_cancel_resets_observer(state: ProgressState, earlier: Seq<Signal>)
    ensures
        apply_all(state, earlier + cancel_signals()).dl_count == 0,
        !apply_all(state, earlier + cancel_signals()).downloading_status,
        !apply_all(state, earlier + cancel_signals()).task_active,
{
    lemma_apply_concat(state, earlier, cancel_signals());
    let before = apply_all(state, earlier);
    let none = Seq::<Signal>::empty();
    let one = seq![Signal::Count(0)];
    assert(cancel_signals() =~= one.push(Signal::Status(false)));
    lemma_apply_push(before, none, Signal::Count(0));
    lemma_apply_push(before, one, Signal::Status(false));
}

/// The signals at the natural end of a run leave the observer idle with
/// its counter at zero, the finished flag raised and no run outstanding.
pub proof fn lemma_completion_resets_observer(state: ProgressState, earlier: Seq<Signal>)
    ensures
        apply_all(state, earlier + completion_signals()).dl_count == 0,
        !apply_all(state, earlier + completion_signals()).downloading_status,
        apply_all(state, earlier + completion_signals()).finished,
        !apply_all(state, earlier + completion_signals()).task_active,
{
    lemma_apply_concat(state, earlier, completion_signals());
    let before = apply_all(state, earlier);
    let none = Seq::<Signal>::empty();
    let one = seq![Signal::Count(0)];
    let two = seq![Signal::Count(0), Signal::Status(false)];
    assert(two =~= one.push(Signal::Status(false)));
    assert(completion_signals() =~= two.push(Signal::Finished(true)));
    lemma_apply_push(before, none, Signal::Count(0));
    lemma_apply_push(before, one, Signal::Status(false));
    lemma_apply_push(before, two, Signal::Finished(true));
}

} // verus!
