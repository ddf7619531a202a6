use post_dl::channel_handler::{GuiChannels, ProgressState, Signal, StartDecision};
use post_dl::e_handler::Mode;

#[test]
fn channels_start_empty() {
    let channels = GuiChannels::default();
    assert!(channels.dl_count_channel.is_empty());
    assert!(channels.dl_status_channel.is_empty());
    assert!(channels.finished_status_channel.is_empty());
    assert!(channels.failed_count_channel.is_empty());
    assert!(channels.error_status_channel.is_empty());
}

#[test]
fn each_signal_goes_to_its_queue() {
    let mut channels = GuiChannels::default();
    channels.send(Signal::Count(3));
    channels.send(Signal::Status(true));
    channels.send(Signal::Finished(true));
    channels.send(Signal::Failures(2));
    channels.send(Signal::Error(true));
    assert_eq!(channels.dl_count_channel, [3]);
    assert_eq!(channels.dl_status_channel, [true]);
    assert_eq!(channels.finished_status_channel, [true]);
    assert_eq!(channels.failed_count_channel, [2]);
    assert_eq!(channels.error_status_channel, [true]);
}

#[test]
fn queues_keep_the_order_of_sending() {
    let mut channels = GuiChannels::default();
    channels.publish(&vec![
        Signal::Count(1),
        Signal::Status(true),
        Signal::Count(2),
        Signal::Count(0),
        Signal::Status(false),
    ]);
    assert_eq!(channels.dl_count_channel, [1, 2, 0]);
    assert_eq!(channels.dl_status_channel, [true, false]);
    assert!(channels.finished_status_channel.is_empty());
}

#[test]
fn observer_starts_idle() {
    let state = ProgressState::default();
    assert_eq!(state.dl_count, 0);
    assert!(!state.downloading_status);
    assert!(!state.finished);
    assert_eq!(state.failed_count, 0);
    assert!(!state.error);
    assert!(!state.task_active);
}

#[test]
fn counts_add_up_and_zero_resets() {
    let mut state = ProgressState::default();
    state.receive(Signal::Count(1));
    state.receive(Signal::Count(4));
    assert_eq!(state.dl_count, 5);
    state.receive(Signal::Count(0));
    assert_eq!(state.dl_count, 0);
    state.receive(Signal::Failures(2));
    state.receive(Signal::Failures(1));
    assert_eq!(state.failed_count, 3);
    state.receive(Signal::Failures(0));
    assert_eq!(state.failed_count, 0);
}

#[test]
fn flags_follow_their_signals() {
    let mut state = ProgressState::default();
    state.task_active = true;
    state.receive(Signal::Status(true));
    assert!(state.downloading_status);
    state.receive(Signal::Finished(false));
    assert!(state.task_active);
    state.receive(Signal::Error(false));
    assert!(state.task_active);
    state.receive(Signal::Finished(true));
    assert!(state.finished);
    assert!(!state.task_active);
    state.task_active = true;
    state.receive(Signal::Error(true));
    assert!(state.error);
    assert!(!state.task_active);
}

#[test]
fn poll_takes_one_message_from_each_queue() {
    let mut channels = GuiChannels::default();
    channels.publish(&vec![
        Signal::Count(1),
        Signal::Count(1),
        Signal::Status(true),
        Signal::Failures(1),
    ]);
    let mut state = ProgressState::default();
    state.poll(&mut channels);
    assert_eq!(state.dl_count, 1);
    assert!(state.downloading_status);
    assert_eq!(state.failed_count, 1);
    assert_eq!(channels.dl_count_channel, [1]);
    assert!(channels.dl_status_channel.is_empty());
    state.poll(&mut channels);
    assert_eq!(state.dl_count, 2);
    assert!(channels.dl_count_channel.is_empty());
    let before = state;
    state.poll(&mut channels);
    assert_eq!(state, before);
}

#[test]
fn raised_flag_is_acknowledged_on_its_queue() {
    let mut channels = GuiChannels::default();
    channels.publish(&vec![Signal::Count(0), Signal::Status(false), Signal::Finished(true)]);
    let mut state = ProgressState::default();
    state.task_active = true;
    state.dl_count = 9;
    state.downloading_status = true;
    state.poll(&mut channels);
    assert_eq!(state.dl_count, 0);
    assert!(!state.downloading_status);
    assert!(state.finished);
    assert!(!state.task_active);
    assert_eq!(channels.finished_status_channel, [false]);
    state.poll(&mut channels);
    assert!(!state.finished);
    assert!(channels.finished_status_channel.is_empty());
}

#[test]
fn error_flag_is_acknowledged_too() {
    let mut channels = GuiChannels::default();
    channels.send(Signal::Error(true));
    let mut state = ProgressState::default();
    state.task_active = true;
    state.poll(&mut channels);
    assert!(state.error);
    assert!(!state.task_active);
    assert_eq!(channels.error_status_channel, [false]);
    state.poll(&mut channels);
    assert!(!state.error);
}

#[test]
fn cancel_signals_leave_the_observer_idle_at_zero() {
    let mut channels = GuiChannels::default();
    channels.publish(&vec![
        Signal::Count(0),
        Signal::Failures(0),
        Signal::Status(true),
        Signal::Count(1),
        Signal::Count(1),
        Signal::Count(0),
        Signal::Status(false),
    ]);
    let mut state = ProgressState::default();
    for _ in 0..4 {
        state.poll(&mut channels);
    }
    assert_eq!(state.dl_count, 0);
    assert!(!state.downloading_status);
    assert!(channels.dl_count_channel.is_empty());
}

#[test]
fn a_run_may_start_when_none_is_outstanding() {
    let mut state = ProgressState::default();
    assert_eq!(state.request_start(Mode::Favourites, 5), StartDecision::Started);
    assert!(state.task_active);
    assert_eq!(state.request_start(Mode::Tags, 5), StartDecision::AlreadyRunning);
    assert_eq!(state.request_start(Mode::Bulk, 5), StartDecision::AlreadyRunning);
    assert!(state.task_active);
}

#[test]
fn a_bulk_run_over_zero_pages_is_refused() {
    let mut state = ProgressState::default();
    assert_eq!(state.request_start(Mode::Bulk, 0), StartDecision::NoPages);
    assert!(!state.task_active);
    assert_eq!(state.request_start(Mode::Tags, 0), StartDecision::Started);
    assert_eq!(state.request_start(Mode::Bulk, 0), StartDecision::NoPages);
    assert!(state.task_active);
    let mut other = ProgressState::default();
    assert_eq!(other.request_start(Mode::Bulk, -1), StartDecision::Started);
}

#[test]
fn an_idle_report_releases_the_run() {
    let mut state = ProgressState::default();
    state.request_start(Mode::Tags, 5);
    state.receive(Signal::Status(true));
    assert!(state.task_active);
    assert_eq!(state.request_start(Mode::Tags, 5), StartDecision::AlreadyRunning);
    state.receive(Signal::Status(false));
    assert!(!state.task_active);
    assert_eq!(state.request_start(Mode::Tags, 5), StartDecision::Started);
}

#[test]
fn reset_sends_what_a_cancelled_run_sends() {
    let mut channels = GuiChannels::default();
    channels.publish(&vec![Signal::Status(true), Signal::Count(1)]);
    channels.reset();
    assert_eq!(channels.dl_count_channel, [1, 0]);
    assert_eq!(channels.dl_status_channel, [true, false]);
    assert!(channels.finished_status_channel.is_empty());
    let mut state = ProgressState::default();
    state.request_start(Mode::Bulk, 3);
    state.poll(&mut channels);
    state.poll(&mut channels);
    assert_eq!(state.dl_count, 0);
    assert!(!state.downloading_status);
    assert!(!state.task_active);
}
