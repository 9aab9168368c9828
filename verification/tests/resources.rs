use macsftp_app::model::{TabId, TransferId};
use macsftp_app::rate_sampler::{RateSnapshot, Speed};
use macsftp_app::resources::{
    AppResources, RemoveOutcome, ResidualTemp, RunCounter, SharedTransfers, TransferReport,
};

fn load(runs: &mut RunCounter) -> AppResources {
    AppResources::load(4711, 1_700_000_000_123_456_789, runs, Vec::new(), &Vec::new())
}

#[test]
fn app_resources_start_with_empty_edit_sessions() {
    let resources = load(&mut RunCounter::new());
    assert_eq!(resources.edit_sessions.watch_candidates().len(), 0);
    assert_eq!(resources.edit_sessions.sessions.len(), 0);
}

#[test]
fn app_resources_use_a_unique_edit_namespace_per_run() {
    let mut runs = RunCounter::new();
    let first = load(&mut runs);
    let second = load(&mut runs);

    assert_ne!(first.edit_run_id, second.edit_run_id);
    assert_eq!(first.edit_run_id, "4711-1700000000123456789-0");
    assert_eq!(second.edit_run_id, "4711-1700000000123456789-1");
    assert_eq!((first.tab_ids.next, second.tab_ids.next), (1, 1));
}

#[test]
fn tab_ids_are_handed_out_once() {
    let mut resources = load(&mut RunCounter::new());
    assert_eq!(resources.next_tab_id(), TabId(1));
    assert_eq!(resources.next_tab_id(), TabId(2));
}

#[test]
fn local_leftovers_are_forgotten_once_gone() {
    let record = |n: u64, is_local: bool| ResidualTemp {
        transfer_id: TransferId(n),
        path: format!("/tmp/.macsftp-part-{n}"),
        is_local,
    };
    let records = vec![record(1, true), record(2, true), record(3, true), record(4, false)];
    let outcomes = vec![
        RemoveOutcome::Removed,
        RemoveOutcome::NotFound,
        RemoveOutcome::Failed,
        RemoveOutcome::Removed,
    ];
    let resources = AppResources::load(1, 1, &mut RunCounter::new(), records, &outcomes);
    assert_eq!(resources.residual_temps, vec![record(3, true), record(4, false)]);
}

#[test]
fn an_ended_transfer_leaves_no_speed() {
    let mut shared = SharedTransfers::new();
    let second = 1_000_000_000;
    for n in 0..3 {
        shared.apply_transfer_event(
            &TransferReport::Progress { transfer_id: TransferId(9), bytes_done: n * 1000 },
            n * second,
        );
    }
    let running = shared.rates.snapshot(TransferId(9), 2000, None, 2 * second);
    assert_eq!(running.speed, Some(Speed { whole: 1000, part: 0 }));
    shared.apply_transfer_event(
        &TransferReport::Skipped { transfer_id: TransferId(9) },
        3 * second,
    );
    let ended = shared.rates.snapshot(TransferId(9), 2000, None, 3 * second);
    assert_eq!(ended, RateSnapshot { speed: None, stalled: false, eta: None });
}
