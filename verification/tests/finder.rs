use std::collections::HashSet;
use vitis_be::endpoints::finder::{cooldown_tick, finder_job, unchecked_of, Broadcast, Entry, Probe, Scan, Tick};
use vitis_be::endpoints::ledger::TicketStatus;
use vitis_be::error::ErrorKind;
use vitis_be::states::account::Account;
use vitis_be::states::finder::{Phase, Registration, COOLDOWN_TICKS};
use vitis_be::states::series::{Ticket, NONE_PENDING};
use vitis_be::states::States;

const SERIES: i64 = 5;
const ITEM: i64 = 900;
const NOW: i64 = 1_700_000_000;

fn pool(ids: &[i64]) -> States {
    let mut states = States::new();
    for id in ids {
        states.put_acc(
            *id,
            &Account {
                last_token_refresh: 0,
                last_gotcha_opened: 0,
                balance: 0,
                token: "t".to_string(),
                agent: "a".to_string(),
                proxy: None,
            },
        );
    }
    states
}

fn start(states: &mut States, checked: &[i64]) -> Scan {
    match finder_job(states, &checked.iter().copied().collect(), SERIES, ITEM) {
        Entry::Started(scan) => scan,
        Entry::Joined => panic!("expected a scan to start"),
    }
}

fn status(own: i64, rental: i64, charged_at: Option<&str>) -> TicketStatus {
    TicketStatus { own_count: own, rental_count: rental, charged_at: charged_at.map(|s| s.to_string()) }
}

fn ledger(states: &mut States, account: i64) -> Option<Ticket> {
    let series = states.get_srs(SERIES);
    let ticket = series.get_tkt(account).ok();
    states.put_srs(SERIES, series);
    ticket
}

#[test]
fn single_flight_starts_one_scan_for_many_callers() {
    let mut states = pool(&[1, 2, 3]);
    let mut scans = 0;
    let mut joined = 0;
    for _ in 0..10 {
        match finder_job(&mut states, &HashSet::new(), SERIES, ITEM) {
            Entry::Started(_) => scans += 1,
            Entry::Joined => joined += 1,
        }
    }
    assert_eq!(scans, 1);
    assert_eq!(joined, 9);
    assert_eq!(
        states.registration(SERIES),
        Some(Registration { phase: Phase::Scanning, announced: false, ticks: 0, waiting: 10 })
    );
}

#[test]
fn first_call_is_the_one_that_starts() {
    let mut states = pool(&[1]);
    assert!(matches!(finder_job(&mut states, &HashSet::new(), SERIES, ITEM), Entry::Started(_)));
    assert_eq!(finder_job(&mut states, &HashSet::new(), SERIES, ITEM), Entry::Joined);
}

#[test]
fn all_waiting_callers_receive_the_positive_answer() {
    let mut states = pool(&[1]);
    let mut scan = start(&mut states, &[]);
    for _ in 0..4 {
        assert_eq!(finder_job(&mut states, &HashSet::new(), SERIES, ITEM), Entry::Joined);
    }
    let answer = scan.record(&mut states, &status(1, 1, None), NOW).unwrap();
    assert_eq!(answer, Some(Broadcast { value: true, receivers: 5 }));
    assert_eq!(
        states.registration(SERIES),
        Some(Registration { phase: Phase::Scanning, announced: true, ticks: 0, waiting: 0 })
    );
}

#[test]
fn scan_targets_skip_the_checked_accounts() {
    let mut states = pool(&[1, 2, 3, 4]);
    let scan = start(&mut states, &[2, 4]);
    let mut targets = scan.targets.clone();
    targets.sort();
    assert_eq!(targets, vec![1, 3]);
    assert_eq!(scan.at, 0);
    assert_eq!(scan.series_id, SERIES);
    assert_eq!(scan.single_id, ITEM);
}

#[test]
fn unchecked_keeps_the_order() {
    assert_eq!(unchecked_of(&vec![5, 1, 4, 2], &HashSet::from([4, 9])), vec![5, 1, 2]);
    assert_eq!(unchecked_of(&vec![], &HashSet::from([4])), Vec::<i64>::new());
    assert_eq!(unchecked_of(&vec![7], &HashSet::new()), vec![7]);
}

#[test]
fn scan_asks_for_the_free_ticket_check_until_the_account_has_a_slot() {
    let mut states = pool(&[1]);
    let scan = start(&mut states, &[]);
    assert_eq!(
        scan.next(&mut states),
        Some(Ok(Probe { account_id: 1, check_first: true }))
    );
    let mut series = states.get_srs(SERIES);
    series.set_tkt(ITEM, Ticket { wait_free: 0, permanent: 0 });
    states.put_srs(SERIES, series);
    assert_eq!(
        scan.next(&mut states),
        Some(Ok(Probe { account_id: 1, check_first: true }))
    );
    let mut series = states.get_srs(SERIES);
    series.set_tkt(1, Ticket { wait_free: 0, permanent: 0 });
    states.put_srs(SERIES, series);
    assert_eq!(
        scan.next(&mut states),
        Some(Ok(Probe { account_id: 1, check_first: false }))
    );
}

#[test]
fn failed_scan_ends_the_registration_and_the_next_call_starts_a_scan() {
    let mut states = pool(&[1, 2]);
    let mut scan = start(&mut states, &[]);
    assert_eq!(finder_job(&mut states, &HashSet::new(), SERIES, ITEM), Entry::Joined);
    let first = scan.targets[0];
    let second = scan.targets[1];
    scan.record(&mut states, &status(1, 0, None), NOW).unwrap();
    scan.record(&mut states, &status(5, 5, Some("tomorrow")), NOW).unwrap_err();
    assert_eq!(scan.fail(&mut states), 0);
    assert_eq!(states.registration(SERIES), None);
    assert_eq!(ledger(&mut states, first), Some(Ticket { wait_free: NONE_PENDING, permanent: 1 }));
    assert_eq!(ledger(&mut states, second), None);
    assert_eq!(cooldown_tick(&mut states, SERIES), Tick::Idle);
    assert!(matches!(finder_job(&mut states, &HashSet::new(), SERIES, ITEM), Entry::Started(_)));
}

#[test]
fn failed_scan_tells_how_many_callers_waited() {
    let mut states = pool(&[1]);
    let scan = start(&mut states, &[]);
    for _ in 0..3 {
        assert_eq!(finder_job(&mut states, &HashSet::new(), SERIES, ITEM), Entry::Joined);
    }
    assert_eq!(scan.fail(&mut states), 4);
    assert_eq!(states.registration(SERIES), None);
}

#[test]
fn scan_refreshes_every_ledger_and_announces_once() {
    let mut states = pool(&[1, 2, 3]);
    let mut scan = start(&mut states, &[]);
    let order = scan.targets.clone();
    let mut announced = 0;
    let mut seen = Vec::new();
    while let Some(probe) = scan.next(&mut states) {
        let probe = probe.unwrap();
        seen.push(probe.account_id);
        let answer = scan.record(&mut states, &status(2, 0, None), NOW).unwrap();
        if let Some(broadcast) = answer {
            assert!(broadcast.value);
            announced += 1;
        }
    }
    assert_eq!(seen, order);
    assert_eq!(announced, 1);
    for id in [1, 2, 3] {
        assert_eq!(ledger(&mut states, id), Some(Ticket { wait_free: NONE_PENDING, permanent: 2 }));
    }
}

#[test]
fn record_computes_the_ledger_from_the_report() {
    let mut states = pool(&[1]);
    let mut scan = start(&mut states, &[]);
    // the free redemption fell due: one of the three is no permanent one
    let answer = scan
        .record(&mut states, &status(1, 2, Some("2023-05-01T12:34:56.000Z")), NOW)
        .unwrap();
    assert_eq!(answer, Some(Broadcast { value: true, receivers: 1 }));
    assert_eq!(ledger(&mut states, 1), Some(Ticket { wait_free: 1682944496, permanent: 2 }));
    assert_eq!(scan.at, 1);
}

#[test]
fn record_without_tickets_announces_nothing() {
    let mut states = pool(&[1]);
    let mut scan = start(&mut states, &[]);
    let answer = scan
        .record(&mut states, &status(0, 1, Some("2023-05-01T12:34:56.000Z")), NOW)
        .unwrap();
    assert_eq!(answer, None);
    assert_eq!(ledger(&mut states, 1), Some(Ticket { wait_free: 1682944496, permanent: 0 }));
}

#[test]
fn record_with_a_bad_timestamp_changes_nothing() {
    let mut states = pool(&[1]);
    let mut scan = start(&mut states, &[]);
    let error = scan.record(&mut states, &status(5, 5, Some("tomorrow")), NOW).unwrap_err();
    assert_eq!(error.kind, ErrorKind::RemoteProtocol);
    assert_eq!(scan.at, 0);
    assert_eq!(ledger(&mut states, 1), None);
}

#[test]
fn cooldown_answers_false_and_closes_after_the_last_tick() {
    let mut states = pool(&[1]);
    let scan = start(&mut states, &[]);
    assert_eq!(cooldown_tick(&mut states, SERIES), Tick::Idle);
    scan.finish(&mut states);
    // a call in the window starts no scan and is answered by the next tick
    assert_eq!(finder_job(&mut states, &HashSet::new(), SERIES, ITEM), Entry::Joined);
    assert_eq!(
        cooldown_tick(&mut states, SERIES),
        Tick::Answered(Broadcast { value: false, receivers: 2 })
    );
    for _ in 1..COOLDOWN_TICKS - 1 {
        assert_eq!(
            cooldown_tick(&mut states, SERIES),
            Tick::Answered(Broadcast { value: false, receivers: 0 })
        );
        assert!(states.registration(SERIES).is_some());
    }
    assert_eq!(
        cooldown_tick(&mut states, SERIES),
        Tick::Closed(Broadcast { value: false, receivers: 0 })
    );
    assert_eq!(states.registration(SERIES), None);
    assert_eq!(cooldown_tick(&mut states, SERIES), Tick::Idle);
    // after the window the next call starts a fresh scan
    assert!(matches!(finder_job(&mut states, &HashSet::new(), SERIES, ITEM), Entry::Started(_)));
}

#[test]
fn cooldown_constants() {
    assert_eq!(COOLDOWN_TICKS, 3600);
    assert_eq!(vitis_be::states::finder::COOLDOWN_INTERVAL_MILLIS, 100);
    assert_eq!(vitis_be::states::finder::BROADCAST_CAPACITY, 1024);
}
