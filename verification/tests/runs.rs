use post_dl::channel_handler::Signal;
use post_dl::e_handler::{EHandler, Mode};
use post_dl::orchestrator::{Action, Event, Orchestrator, Outcome, Phase, Step};
use post_dl::type_defs::api_defs::{Alternates, File, Post, Posts, Sample, Tags};
use std::collections::{BTreeMap, BTreeSet};

fn post(id: u64, artist: &str, ext: &str, url: Option<&str>) -> Post {
    Post {
        id,
        file: File { ext: ext.to_string(), url: url.map(|u| u.to_string()) },
        tags: Tags { artist: vec![artist.to_string()] },
        sample: Sample { has: false, url: None, alternates: Alternates { lower_quality: None } },
    }
}

fn page(posts: Vec<Post>) -> Posts {
    Posts { posts }
}

fn config(username: &str, pages: i32) -> EHandler {
    let mut cfg = EHandler::default();
    cfg.username = username.to_string();
    cfg.pages = pages;
    cfg
}

/// A remote dataset and a disk that never fail.
struct World {
    remote: Vec<Vec<Post>>,
    files: BTreeSet<String>,
    kept: BTreeMap<String, Vec<Post>>,
    failing: BTreeSet<String>,
}

/// What a run did.
struct Log {
    signals: Vec<Signal>,
    outcomes: Vec<(String, Outcome)>,
    targets: Vec<String>,
    persisted: Vec<String>,
    loaded: Vec<String>,
    transfers: Vec<(String, String)>,
}

fn world(remote: Vec<Vec<Post>>) -> World {
    World { remote, files: BTreeSet::new(), kept: BTreeMap::new(), failing: BTreeSet::new() }
}

fn note(log: &mut Log, step: &Step) {
    log.signals.extend(step.signals.iter().copied());
    if let Some(report) = &step.report {
        log.outcomes.push((report.name.clone(), report.outcome));
    }
}

fn drive(run: &mut Orchestrator, w: &mut World, cancel_after: Option<usize>) -> Log {
    let mut log = Log {
        signals: vec![],
        outcomes: vec![],
        targets: vec![],
        persisted: vec![],
        loaded: vec![],
        transfers: vec![],
    };
    w.kept.clear();
    let mut fetched: usize = 0;
    let mut actions: usize = 0;
    let mut step = run.step(Event::Start);
    loop {
        note(&mut log, &step);
        if let Action::Stop = step.action {
            break;
        }
        if cancel_after == Some(actions) {
            step = run.step(Event::Cancel);
            continue;
        }
        actions += 1;
        assert!(actions < 10_000);
        let event = match step.action {
            Action::Fetch(request) => {
                log.targets.push(request.target);
                let posts = w.remote.get(fetched).cloned().unwrap_or_default();
                fetched += 1;
                Event::Page(page(posts))
            }
            Action::Persist { path, page } => {
                log.persisted.push(path.clone());
                w.kept.insert(path, page.posts);
                Event::Stored
            }
            Action::Load { path } => {
                log.loaded.push(path.clone());
                match w.kept.get(&path) {
                    Some(posts) => Event::Page(page(posts.clone())),
                    None => Event::Failed,
                }
            }
            Action::Probe { path } => Event::Probed(w.files.contains(&path)),
            Action::Transfer { url, path } => {
                if w.failing.contains(&url) {
                    log.transfers.push((url, path));
                    Event::Failed
                } else {
                    w.files.insert(path.clone());
                    log.transfers.push((url, path));
                    Event::Transferred(100)
                }
            }
            Action::Stop => unreachable!(),
        };
        step = run.step(event);
    }
    log
}

fn increments(signals: &[Signal]) -> u64 {
    let mut total = 0;
    for signal in signals {
        if let Signal::Count(n) = signal {
            total += n;
        }
    }
    total
}

const START: [Signal; 3] = [Signal::Count(0), Signal::Failures(0), Signal::Status(true)];
const END: [Signal; 3] = [Signal::Count(0), Signal::Status(false), Signal::Finished(true)];

#[test]
fn one_item_is_downloaded_once_and_the_run_finishes() {
    let remote = vec![vec![post(1, "bob", "png", Some("http://x/1.png"))]];
    let cfg = config("alice", -1);
    for mode in [Mode::Favourites, Mode::Bulk] {
        let mut w = world(remote.clone());
        let mut run = Orchestrator::new(cfg.snapshot(), mode);
        let log = drive(&mut run, &mut w, None);
        assert_eq!(run.phase(), Phase::Done);
        assert_eq!(w.files.iter().cloned().collect::<Vec<_>>(), vec!["./dl/bob-1.png".to_string()]);
        assert_eq!(
            log.transfers,
            vec![("http://x/1.png".to_string(), "./dl/bob-1.png".to_string())]
        );
        let mut expected = START.to_vec();
        expected.push(Signal::Count(1));
        expected.extend(END);
        assert_eq!(log.signals, expected);
        assert_eq!(log.outcomes, vec![("bob-1.png".to_string(), Outcome::Downloaded(100))]);
    }
}

#[test]
fn item_without_source_is_counted_and_nothing_is_transferred() {
    let remote = vec![vec![post(1, "bob", "png", None)]];
    let mut w = world(remote);
    let mut run = Orchestrator::new(config("alice", -1), Mode::Bulk);
    let log = drive(&mut run, &mut w, None);
    assert_eq!(run.phase(), Phase::Done);
    assert!(w.files.is_empty());
    assert!(log.transfers.is_empty());
    assert_eq!(log.outcomes, vec![("bob-1.png".to_string(), Outcome::NoSource)]);
    let mut expected = START.to_vec();
    expected.push(Signal::Count(1));
    expected.extend(END);
    assert_eq!(log.signals, expected);
}

#[test]
fn second_run_skips_everything_and_counts_the_same() {
    let remote = vec![
        vec![post(1, "bob", "png", Some("http://x/1.png")), post(2, "eve", "jpg", None)],
        vec![post(3, "kim", "gif", Some("http://x/3.gif"))],
    ];
    for mode in [Mode::Tags, Mode::Bulk] {
        let mut w = world(remote.clone());
        let mut first = Orchestrator::new(config("", -1), mode);
        let one = drive(&mut first, &mut w, None);
        let files = w.files.clone();
        let mut second = Orchestrator::new(config("", -1), mode);
        let two = drive(&mut second, &mut w, None);
        assert_eq!(second.phase(), Phase::Done);
        assert!(two.transfers.is_empty());
        assert_eq!(w.files, files);
        assert_eq!(two.signals, one.signals);
        assert_eq!(increments(&two.signals), increments(&one.signals));
        assert!(two
            .outcomes
            .iter()
            .all(|(_, o)| *o == Outcome::AlreadyExists || *o == Outcome::NoSource));
    }
}

#[test]
fn single_page_modes_ask_for_one_page_only() {
    let remote = vec![
        vec![post(1, "bob", "png", Some("http://x/1.png"))],
        vec![post(2, "bob", "png", Some("http://x/2.png"))],
    ];
    let mut w = world(remote);
    let mut run = Orchestrator::new(config("alice", 5), Mode::Tags);
    let log = drive(&mut run, &mut w, None);
    assert_eq!(log.targets, vec!["https://e926.net/posts.json?tags= &limit=5".to_string()]);
    assert!(log.persisted.is_empty());
    assert_eq!(log.transfers.len(), 1);
}

#[test]
fn favourites_without_user_does_nothing() {
    let mut w = world(vec![vec![post(1, "bob", "png", Some("http://x/1.png"))]]);
    let mut run = Orchestrator::new(config("", 5), Mode::Favourites);
    let log = drive(&mut run, &mut w, None);
    assert_eq!(run.phase(), Phase::Done);
    assert!(log.targets.is_empty());
    let mut expected = START.to_vec();
    expected.extend(END);
    assert_eq!(log.signals, expected);
}

#[test]
fn empty_page_ends_a_single_page_run() {
    let mut w = world(vec![]);
    let mut run = Orchestrator::new(config("alice", 5), Mode::Favourites);
    let log = drive(&mut run, &mut w, None);
    assert_eq!(run.phase(), Phase::Done);
    assert_eq!(log.targets.len(), 1);
    assert_eq!(increments(&log.signals), 0);
}

#[test]
fn bulk_stops_at_the_first_empty_page() {
    let full = |id: u64| vec![post(id, "bob", "png", Some("http://x/f.png"))];
    let remote = vec![full(1), full(2), full(3), vec![], full(5)];
    for pages in [-1, 4, 75] {
        let mut w = world(remote.clone());
        let mut run = Orchestrator::new(config("", pages), Mode::Bulk);
        let log = drive(&mut run, &mut w, None);
        assert_eq!(log.targets.len(), 4);
        assert!(log.targets[3].ends_with("&page=4"));
        assert_eq!(
            log.persisted,
            vec![
                "./data/post_page_1.json".to_string(),
                "./data/post_page_2.json".to_string(),
                "./data/post_page_3.json".to_string()
            ]
        );
        assert_eq!(log.loaded, log.persisted);
        assert_eq!(run.persisted(), 3);
        assert_eq!(increments(&log.signals), 3);
    }
}

#[test]
fn bulk_respects_the_page_bound() {
    let full = |id: u64| vec![post(id, "bob", "png", Some("http://x/f.png"))];
    let remote: Vec<Vec<Post>> = (1..=10).map(full).collect();
    for pages in [1, 2, 7] {
        let mut w = world(remote.clone());
        let mut run = Orchestrator::new(config("", pages), Mode::Bulk);
        let log = drive(&mut run, &mut w, None);
        assert_eq!(log.targets.len(), pages as usize);
        assert_eq!(log.persisted.len(), pages as usize);
        assert_eq!(run.persisted(), pages as u32);
        assert_eq!(run.phase(), Phase::Done);
        assert_eq!(w.files.len(), pages as usize);
    }
}

#[test]
fn bulk_over_zero_pages_fetches_nothing() {
    let mut w = world(vec![vec![post(1, "bob", "png", Some("http://x/1.png"))]]);
    let mut run = Orchestrator::new(config("", 0), Mode::Bulk);
    let log = drive(&mut run, &mut w, None);
    assert_eq!(run.phase(), Phase::Done);
    assert!(log.targets.is_empty());
    assert!(log.persisted.is_empty());
}

#[test]
fn bulk_fetches_every_page_before_it_transfers() {
    let remote = vec![
        vec![post(1, "bob", "png", Some("http://x/1.png"))],
        vec![post(2, "bob", "png", Some("http://x/2.png"))],
    ];
    let mut w = world(remote);
    let mut run = Orchestrator::new(config("", 2), Mode::Bulk);
    let mut step = run.step(Event::Start);
    let mut order: Vec<&str> = vec![];
    loop {
        let event = match step.action {
            Action::Fetch(_) => {
                order.push("fetch");
                let n = order.iter().filter(|k| **k == "fetch").count();
                Event::Page(page(w.remote[n - 1].clone()))
            }
            Action::Persist { path, page } => {
                order.push("persist");
                w.kept.insert(path, page.posts);
                Event::Stored
            }
            Action::Load { path } => {
                order.push("load");
                Event::Page(page(w.kept[&path].clone()))
            }
            Action::Probe { .. } => {
                order.push("probe");
                Event::Probed(false)
            }
            Action::Transfer { .. } => {
                order.push("transfer");
                Event::Transferred(1)
            }
            Action::Stop => break,
        };
        step = run.step(event);
    }
    assert_eq!(
        order,
        vec![
            "fetch", "persist", "fetch", "persist", "load", "probe", "transfer", "load", "probe",
            "transfer"
        ]
    );
}

#[test]
fn lower_quality_runs_take_the_sample() {
    let mut p = post(1, "bob", "png", Some("http://x/1.png"));
    p.sample.has = true;
    p.sample.url = Some("http://x/s.png".to_string());
    let mut cfg = config("alice", 5);
    cfg.lower_quality = true;
    let mut w = world(vec![vec![p]]);
    let mut run = Orchestrator::new(cfg, Mode::Favourites);
    let log = drive(&mut run, &mut w, None);
    assert_eq!(log.transfers, vec![("http://x/s.png".to_string(), "./dl/bob-1.png".to_string())]);
}

#[test]
fn failed_transfer_is_counted_as_a_failure_and_the_run_goes_on() {
    let remote = vec![vec![
        post(1, "bob", "png", Some("http://x/1.png")),
        post(2, "bob", "png", Some("http://x/2.png")),
    ]];
    let mut w = world(remote);
    w.failing.insert("http://x/1.png".to_string());
    let mut run = Orchestrator::new(config("alice", 5), Mode::Favourites);
    let log = drive(&mut run, &mut w, None);
    assert_eq!(run.phase(), Phase::Done);
    let mut expected = START.to_vec();
    expected.push(Signal::Failures(1));
    expected.push(Signal::Count(1));
    expected.extend(END);
    assert_eq!(log.signals, expected);
    assert_eq!(
        log.outcomes,
        vec![
            ("bob-1.png".to_string(), Outcome::TransferFailed),
            ("bob-2.png".to_string(), Outcome::Downloaded(100))
        ]
    );
    assert_eq!(w.files.len(), 1);
}

#[test]
fn failed_fetch_fails_the_run() {
    let mut run = Orchestrator::new(config("alice", 5), Mode::Favourites);
    let first = run.step(Event::Start);
    assert!(matches!(first.action, Action::Fetch(_)));
    let step = run.step(Event::Failed);
    assert_eq!(run.phase(), Phase::Failed);
    assert!(run.is_over());
    assert!(matches!(step.action, Action::Stop));
    assert_eq!(step.signals, vec![Signal::Count(0), Signal::Status(false), Signal::Error(true)]);
}

#[test]
fn unexpected_event_fails_the_run() {
    let mut run = Orchestrator::new(config("alice", 5), Mode::Bulk);
    run.step(Event::Start);
    let step = run.step(Event::Probed(true));
    assert_eq!(run.phase(), Phase::Failed);
    assert!(matches!(step.action, Action::Stop));
    assert_eq!(step.signals, vec![Signal::Count(0), Signal::Status(false), Signal::Error(true)]);
}

#[test]
fn missing_kept_page_fails_the_run() {
    let mut run = Orchestrator::new(config("", 1), Mode::Bulk);
    run.step(Event::Start);
    run.step(Event::Page(page(vec![post(1, "bob", "png", None)])));
    let load = run.step(Event::Stored);
    assert!(matches!(load.action, Action::Load { .. }));
    assert_eq!(run.phase(), Phase::Loading { page: 0 });
    run.step(Event::Failed);
    assert_eq!(run.phase(), Phase::Failed);
}

#[test]
fn events_before_the_start_are_not_heard() {
    let mut run = Orchestrator::new(config("alice", 5), Mode::Tags);
    for event in [Event::Cancel, Event::Failed, Event::Stored, Event::Probed(true)] {
        let step = run.step(event);
        assert_eq!(run.phase(), Phase::Idle);
        assert!(step.signals.is_empty());
        assert!(matches!(step.action, Action::Stop));
    }
    let step = run.step(Event::Start);
    assert_eq!(run.phase(), Phase::Fetching { page: 0 });
    assert_eq!(step.signals, START.to_vec());
}

#[test]
fn cancellation_resets_the_observer_and_silences_the_run() {
    let remote = vec![vec![
        post(1, "bob", "png", Some("http://x/1.png")),
        post(2, "bob", "png", Some("http://x/2.png")),
        post(3, "bob", "png", Some("http://x/3.png")),
    ]];
    for after in 0..6 {
        let mut w = world(remote.clone());
        let mut run = Orchestrator::new(config("alice", 5), Mode::Favourites);
        let log = drive(&mut run, &mut w, Some(after));
        assert_eq!(run.phase(), Phase::Cancelled);
        let n = log.signals.len();
        assert_eq!(log.signals[n - 2..], [Signal::Count(0), Signal::Status(false)]);
        assert!(!log.signals.contains(&Signal::Finished(true)));
        for event in [Event::Transferred(5), Event::Probed(false), Event::Start, Event::Cancel] {
            let step = run.step(event);
            assert_eq!(run.phase(), Phase::Cancelled);
            assert!(step.signals.is_empty());
            assert!(step.report.is_none());
            assert!(matches!(step.action, Action::Stop));
        }
    }
}

#[test]
fn finished_run_is_not_cancelled_afterwards() {
    let mut w = world(vec![vec![post(1, "bob", "png", Some("http://x/1.png"))]]);
    let mut run = Orchestrator::new(config("alice", 5), Mode::Favourites);
    drive(&mut run, &mut w, None);
    let step = run.step(Event::Cancel);
    assert_eq!(run.phase(), Phase::Done);
    assert!(step.signals.is_empty());
}

#[test]
fn same_name_twice_in_a_page_is_transferred_once() {
    let remote = vec![vec![
        post(1, "bob", "png", Some("http://x/1.png")),
        post(1, "bob", "png", Some("http://x/1.png")),
    ]];
    let mut w = world(remote);
    let mut run = Orchestrator::new(config("alice", 5), Mode::Favourites);
    let log = drive(&mut run, &mut w, None);
    assert_eq!(log.transfers.len(), 1);
    assert_eq!(increments(&log.signals), 2);
    assert_eq!(log.outcomes[1], ("bob-1.png".to_string(), Outcome::AlreadyExists));
}

#[test]
fn bulk_with_an_empty_first_page_asks_once_and_keeps_nothing() {
    let mut w = world(vec![vec![], vec![post(2, "bob", "png", Some("http://x/2.png"))]]);
    let mut run = Orchestrator::new(config("", -1), Mode::Bulk);
    let log = drive(&mut run, &mut w, None);
    assert_eq!(run.phase(), Phase::Done);
    assert_eq!(log.targets.len(), 1);
    assert!(log.persisted.is_empty());
    assert!(log.loaded.is_empty());
    assert!(w.files.is_empty());
}
