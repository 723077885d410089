use vitis_be::endpoints::ledger::TicketStatus;
use vitis_be::endpoints::single::{
    single, Attempt, Fetch, Find, Offer, Plan, Readiness, Ready, Redeem, SingleReq, Step,
};
use vitis_be::endpoints::viewer::{ImageFile, TextContent, ViewerData, ViewerInfo};
use vitis_be::error::ErrorKind;
use vitis_be::states::account::Account;
use vitis_be::states::series::{Image, Single, Ticket, Viewer, KHTML, NONE_PENDING};
use std::collections::HashSet;
use vitis_be::states::States;

const SERIES: i64 = 77;
const ITEM: i64 = 1001;
const NOW: i64 = 1_700_000_000;

fn account(token: &str) -> Account {
    Account {
        last_token_refresh: 0,
        last_gotcha_opened: 0,
        balance: 0,
        token: token.to_string(),
        agent: "kakaopage/0000000000000001".to_string(),
        proxy: None,
    }
}

fn store(tickets: &[(i64, Ticket)]) -> States {
    let mut states = States::new();
    let mut series = states.get_srs(SERIES);
    for (id, ticket) in tickets {
        states.put_acc(*id, &account("token"));
        series.set_tkt(*id, *ticket);
    }
    states.put_srs(SERIES, series);
    states
}

fn ledger(states: &mut States, account: i64) -> Option<Ticket> {
    let series = states.get_srs(SERIES);
    let ticket = series.get_tkt(account).ok();
    states.put_srs(SERIES, series);
    ticket
}

fn request(wait_free: bool, free: bool) -> SingleReq {
    SingleReq { series_id: SERIES, single_id: ITEM, wait_free, free }
}

fn images() -> ViewerInfo {
    ViewerInfo {
        title: "Chapter 1".to_string(),
        viewer_data: ViewerData::ImageViewerData(vec![
            ImageFile { size: 10, secure_url: "https://cdn.example/a?kid=first&x=1".to_string() },
            ImageFile { size: 20, secure_url: "https://cdn.example/b?kid=second".to_string() },
        ]),
        prev_item: None,
        next_item: Some(1002),
    }
}

fn chapter_one() -> Single {
    Single {
        title: "Chapter 1".to_string(),
        viewer: Viewer::ImageList(vec![
            Image { size: 10, kid: "first".to_string() },
            Image { size: 20, kid: "second".to_string() },
        ]),
        prev: None,
        next: Some(1002),
    }
}

fn status(own: i64, rental: i64, charged_at: Option<&str>) -> TicketStatus {
    TicketStatus { own_count: own, rental_count: rental, charged_at: charged_at.map(|s| s.to_string()) }
}

fn confirmed(own: i64, rental: i64) -> Readiness {
    Readiness { process: "AlreadyConfirmed".to_string(), available: None, status: status(own, rental, None) }
}

fn expect_ready(step: Step) -> Ready {
    match step {
        Step::Ready(ready) => ready,
        other => panic!("expected a readiness question, got {:?}", other),
    }
}

fn expect_fetch(step: Step) -> Fetch {
    match step {
        Step::Fetch(fetch) => fetch,
        other => panic!("expected a fetch, got {:?}", other),
    }
}

fn expect_redeem(step: Step) -> Redeem {
    match step {
        Step::Redeem(redeem) => redeem,
        other => panic!("expected a redemption, got {:?}", other),
    }
}

fn expect_find(step: Step) -> Find {
    match step {
        Step::Find(find) => find,
        other => panic!("expected a call of the finder, got {:?}", other),
    }
}

fn expect_fail(step: Step) -> vitis_be::error::Error {
    match step {
        Step::Fail(error) => error,
        other => panic!("expected a failure, got {:?}", other),
    }
}

fn expect_reply(step: Step) -> Single {
    match step {
        Step::Reply(reply) => reply.meta,
        other => panic!("expected a reply, got {:?}", other),
    }
}

#[test]
fn retry_selection_uses_the_account_with_tickets() {
    let a = Ticket { wait_free: NONE_PENDING, permanent: 0 };
    let b = Ticket { wait_free: NONE_PENDING, permanent: 2 };
    let mut states = store(&[(1, a), (2, b)]);
    let ready = expect_ready(single(&mut states, request(false, false), NOW));
    assert_eq!(ready.account_id, 2);
    assert_eq!(ready.attempt, Attempt::First);
    let fetch = expect_fetch(ready.answered(&mut states, Ok(confirmed(1, 1)), NOW));
    assert_eq!(fetch.account_id, Some(2));
    assert_eq!(fetch.checked, HashSet::from([2]));
    let reply = expect_reply(fetch.fetched(&mut states, Ok(images())));
    assert_eq!(reply, chapter_one());
    assert_eq!(ledger(&mut states, 1), Some(a));
    assert_eq!(ledger(&mut states, 2), Some(Ticket { wait_free: NONE_PENDING, permanent: 2 }));
}

#[test]
fn two_attempt_bound_fails_at_once_when_the_finder_says_no() {
    let mut states = store(&[(1, Ticket { wait_free: NONE_PENDING, permanent: 0 })]);
    let find = expect_find(single(&mut states, request(false, false), NOW));
    assert!(find.checked.is_empty());
    let error = expect_fail(find.found(&mut states, Ok(false), NOW));
    assert_eq!(error.kind, ErrorKind::Cooldown);
    assert_eq!(error.message, "ticket finder job is on a cooldown");
}

#[test]
fn second_attempt_without_tickets_is_exhausted() {
    let mut states = store(&[(1, Ticket { wait_free: NONE_PENDING, permanent: 0 })]);
    let find = expect_find(single(&mut states, request(false, false), NOW));
    let error = expect_fail(find.found(&mut states, Ok(true), NOW));
    assert_eq!(error.kind, ErrorKind::Exhausted);
    assert_eq!(error.message, "not enough tickets");
}

#[test]
fn second_attempt_uses_a_ledger_that_the_finder_refreshed() {
    let mut states = store(&[(1, Ticket { wait_free: NONE_PENDING, permanent: 0 })]);
    let find = expect_find(single(&mut states, request(false, false), NOW));
    let mut series = states.get_srs(SERIES);
    series.set_tkt(1, Ticket { wait_free: NONE_PENDING, permanent: 1 });
    states.put_srs(SERIES, series);
    let ready = expect_ready(find.found(&mut states, Ok(true), NOW));
    assert_eq!(ready.account_id, 1);
    assert_eq!(ready.attempt, Attempt::Second);
}

#[test]
fn a_failed_finder_fails_the_request() {
    let mut states = store(&[]);
    let find = expect_find(single(&mut states, request(false, false), NOW));
    let failure = vitis_be::error::Error::of(ErrorKind::RemoteProtocol, "channel closed");
    let error = expect_fail(find.found(&mut states, Err(failure), NOW));
    assert_eq!(error.kind, ErrorKind::RemoteProtocol);
    assert_eq!(error.message, "channel closed");
}

#[test]
fn cache_hit_replies_without_asking() {
    let mut states = store(&[(1, Ticket { wait_free: NONE_PENDING, permanent: 5 })]);
    let fetch = expect_fetch(single(&mut states, request(false, true), NOW));
    assert_eq!(fetch.account_id, None);
    let first = expect_reply(fetch.fetched(&mut states, Ok(images())));
    for _ in 0..5 {
        let again = expect_reply(single(&mut states, request(false, false), NOW));
        assert_eq!(again, first);
    }
    assert_eq!(ledger(&mut states, 1), Some(Ticket { wait_free: NONE_PENDING, permanent: 5 }));
}

#[test]
fn free_path_passes_all_tickets() {
    let mut states = store(&[(1, Ticket { wait_free: 5, permanent: 5 })]);
    let fetch = expect_fetch(single(&mut states, request(true, true), NOW));
    assert_eq!(fetch.account_id, None);
    assert!(fetch.checked.is_empty());
}

#[test]
fn wait_free_redemption_comes_first() {
    let due = Ticket { wait_free: NOW - 10, permanent: 3 };
    let mut states = store(&[(1, due)]);
    let redeem = expect_redeem(single(&mut states, request(true, false), NOW));
    assert_eq!(redeem.account_id, 1);
    assert_eq!(redeem.ticket_type, "RentWaitFree");
    assert_eq!(redeem.plan, Plan::WaitFree { rest: vec![] });
    let fetch = expect_fetch(redeem.redeemed(
        &mut states,
        Ok(Some("2023-05-01T12:34:56.000Z".to_string())),
        NOW,
    ));
    assert_eq!(fetch.account_id, Some(1));
    assert_eq!(ledger(&mut states, 1), Some(Ticket { wait_free: 1682944496, permanent: 3 }));
}

#[test]
fn wait_free_is_not_due_when_unknown_pending_or_in_the_future() {
    let mut states = store(&[
        (1, Ticket { wait_free: 0, permanent: 0 }),
        (2, Ticket { wait_free: NONE_PENDING, permanent: 0 }),
        (3, Ticket { wait_free: NOW, permanent: 0 }),
        (4, Ticket { wait_free: NOW + 1, permanent: 0 }),
    ]);
    expect_find(single(&mut states, request(true, false), NOW));
}

#[test]
fn failed_wait_free_redemption_falls_back_to_the_counted_part() {
    let mut states = store(&[(1, Ticket { wait_free: NOW - 10, permanent: 1 })]);
    let redeem = expect_redeem(single(&mut states, request(true, false), NOW));
    let failure = vitis_be::error::Error::of(ErrorKind::RemoteProtocol, "no");
    let ready = expect_ready(redeem.redeemed(&mut states, Err(failure), NOW));
    assert_eq!(ready.account_id, 1);
}

#[test]
fn wait_free_redemption_with_a_bad_timestamp_counts_as_failed() {
    let mut states = store(&[(1, Ticket { wait_free: NOW - 10, permanent: 0 })]);
    let redeem = expect_redeem(single(&mut states, request(true, false), NOW));
    expect_find(redeem.redeemed(&mut states, Ok(Some("soon".to_string())), NOW));
}

#[test]
fn rental_process_redeems_the_offered_rental_type() {
    let mut states = store(&[(1, Ticket { wait_free: NONE_PENDING, permanent: 2 })]);
    let ready = expect_ready(single(&mut states, request(false, false), NOW));
    for process in ["ForceUseRentalTicket", "AskTicketChoice"] {
        let readiness = Readiness {
            process: process.to_string(),
            available: Some(Offer {
                own_type: Some("OwnKind".to_string()),
                rental_type: Some("RentKind".to_string()),
            }),
            status: status(1, 1, None),
        };
        let redeem = expect_redeem(ready.answered(&mut states, Ok(readiness), NOW));
        assert_eq!(redeem.ticket_type, "RentKind");
        assert_eq!(redeem.account_id, 1);
        assert_eq!(redeem.plan, Plan::Counted { status: status(1, 1, None) });
        let fetch = expect_fetch(redeem.redeemed(&mut states, Ok(None), NOW));
        assert_eq!(fetch.account_id, Some(1));
        assert_eq!(ledger(&mut states, 1), Some(Ticket { wait_free: NONE_PENDING, permanent: 1 }));
    }
}

#[test]
fn own_process_redeems_the_offered_own_type() {
    let mut states = store(&[(1, Ticket { wait_free: NONE_PENDING, permanent: 2 })]);
    let ready = expect_ready(single(&mut states, request(false, false), NOW));
    let readiness = Readiness {
        process: "ForceUseOwnTicket".to_string(),
        available: Some(Offer {
            own_type: Some("OwnKind".to_string()),
            rental_type: Some("RentKind".to_string()),
        }),
        status: status(3, 0, Some("2023-05-01T12:34:56.000Z")),
    };
    let redeem = expect_redeem(ready.answered(&mut states, Ok(readiness), NOW));
    assert_eq!(redeem.ticket_type, "OwnKind");
    let fetch = expect_fetch(redeem.redeemed(&mut states, Ok(None), NOW));
    assert_eq!(fetch.account_id, Some(1));
    // three owned, one spent, and the free redemption that fell due is no permanent one
    assert_eq!(ledger(&mut states, 1), Some(Ticket { wait_free: 1682944496, permanent: 1 }));
}

#[test]
fn process_without_an_offer_settles_without_redeeming() {
    let mut states = store(&[(1, Ticket { wait_free: NONE_PENDING, permanent: 2 })]);
    let ready = expect_ready(single(&mut states, request(false, false), NOW));
    let readiness = Readiness {
        process: "ForceUseOwnTicket".to_string(),
        available: Some(Offer { own_type: None, rental_type: Some("RentKind".to_string()) }),
        status: status(2, 2, None),
    };
    let fetch = expect_fetch(ready.answered(&mut states, Ok(readiness), NOW));
    assert_eq!(fetch.account_id, Some(1));
    assert_eq!(ledger(&mut states, 1), Some(Ticket { wait_free: NONE_PENDING, permanent: 4 }));
}

#[test]
fn unknown_process_is_fatal() {
    let mut states = store(&[(1, Ticket { wait_free: NONE_PENDING, permanent: 2 })]);
    let ready = expect_ready(single(&mut states, request(false, false), NOW));
    let readiness = Readiness {
        process: "Surprise".to_string(),
        available: None,
        status: status(9, 9, None),
    };
    let error = expect_fail(ready.answered(&mut states, Ok(readiness), NOW));
    assert_eq!(error.kind, ErrorKind::UnknownProcess);
    assert_eq!(error.message, "unknown process: \"Surprise\"");
    assert_eq!(ledger(&mut states, 1), Some(Ticket { wait_free: NONE_PENDING, permanent: 2 }));
}

#[test]
fn failed_counted_redemption_fails_the_request() {
    let mut states = store(&[(1, Ticket { wait_free: NONE_PENDING, permanent: 2 })]);
    let ready = expect_ready(single(&mut states, request(false, false), NOW));
    let readiness = Readiness {
        process: "AskTicketChoice".to_string(),
        available: Some(Offer { own_type: None, rental_type: Some("RentKind".to_string()) }),
        status: status(0, 2, None),
    };
    let redeem = expect_redeem(ready.answered(&mut states, Ok(readiness), NOW));
    let failure = vitis_be::error::Error::of(ErrorKind::RemoteProtocol, "denied");
    let error = expect_fail(redeem.redeemed(&mut states, Err(failure), NOW));
    assert_eq!(error.message, "denied");
    assert_eq!(ledger(&mut states, 1), Some(Ticket { wait_free: NONE_PENDING, permanent: 2 }));
}

#[test]
fn ledger_is_never_negative() {
    let mut states = store(&[(1, Ticket { wait_free: NONE_PENDING, permanent: 2 })]);
    let ready = expect_ready(single(&mut states, request(false, false), NOW));
    let readiness = Readiness {
        process: "AlreadyConfirmed".to_string(),
        available: None,
        status: status(0, 0, Some("2023-05-01T12:34:56.000Z")),
    };
    expect_fetch(ready.answered(&mut states, Ok(readiness), NOW));
    assert_eq!(ledger(&mut states, 1), Some(Ticket { wait_free: 1682944496, permanent: 0 }));
}

#[test]
fn ticket_of_an_account_that_is_not_in_the_pool_is_not_found() {
    let mut states = States::new();
    let mut series = states.get_srs(SERIES);
    series.set_tkt(9, Ticket { wait_free: NONE_PENDING, permanent: 1 });
    states.put_srs(SERIES, series);
    let error = expect_fail(single(&mut states, request(false, false), NOW));
    assert_eq!(error.kind, ErrorKind::NotFound);
    assert_eq!(error.message, "account 9 does not exist");
}

#[test]
fn text_item_keeps_its_address_up_to_the_ampersand() {
    let mut states = store(&[]);
    let fetch = expect_fetch(single(&mut states, request(false, true), NOW));
    let info = ViewerInfo {
        title: "Novel".to_string(),
        viewer_data: ViewerData::TextViewerData(vec![TextContent {
            chapter_id: 1,
            content_id: 2,
            secure_url: "abc-def&sig=1".to_string(),
        }]),
        prev_item: Some(5),
        next_item: None,
    };
    let reply = expect_reply(fetch.fetched(&mut states, Ok(info)));
    assert_eq!(
        reply,
        Single {
            title: "Novel".to_string(),
            viewer: Viewer::KakaoHTML(vec![KHTML {
                chapter_id: 1,
                content_id: 2,
                kid: "abc-def".to_string()
            }]),
            prev: Some(5),
            next: None,
        }
    );
}

#[test]
fn unknown_viewer_is_unsupported() {
    let mut states = store(&[]);
    let fetch = expect_fetch(single(&mut states, request(false, true), NOW));
    let info = ViewerInfo {
        title: "?".to_string(),
        viewer_data: ViewerData::Unknown,
        prev_item: None,
        next_item: None,
    };
    let error = expect_fail(fetch.fetched(&mut states, Ok(info)));
    assert_eq!(error.kind, ErrorKind::RemoteProtocol);
    assert_eq!(error.message, "unsupported single type");
    expect_fetch(single(&mut states, request(false, true), NOW));
}

#[test]
fn image_without_a_kid_fails_the_item() {
    let mut states = store(&[]);
    let fetch = expect_fetch(single(&mut states, request(false, true), NOW));
    let info = ViewerInfo {
        title: "?".to_string(),
        viewer_data: ViewerData::ImageViewerData(vec![ImageFile {
            size: 1,
            secure_url: "https://cdn.example/a".to_string(),
        }]),
        prev_item: None,
        next_item: None,
    };
    let error = expect_fail(fetch.fetched(&mut states, Ok(info)));
    assert_eq!(error.kind, ErrorKind::ParamExtraction);
    assert_eq!(error.message, "could not get param kid in https://cdn.example/a");
}
