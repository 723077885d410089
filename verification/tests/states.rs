use vitis_be::endpoints::ledger::{compute_ledger, read_wait_free, use_ticket};
use vitis_be::error::{Error, ErrorKind};
use vitis_be::states::account::{agent_of, generate_agent, Account};
use vitis_be::states::maintenance::{
    gift_ticket_type, gotcha_id, gotcha_ref, linked_gotcha_id, Gift, GotchaRef, News,
};
use vitis_be::states::series::{Image, Series, Single, Ticket, Viewer, NONE_PENDING};
use vitis_be::states::snapshot::{snapshot_steps, table_paths, Failed, FileStep};
use vitis_be::states::records::{SeriesRecord, Tables};
use vitis_be::states::timers::{pause, pause_of, timers_for, token_delay, Timer, SNAPSHOT_PERIOD};
use vitis_be::states::token::{is_service_host, Token};
use vitis_be::states::States;

fn account(balance: i64) -> Account {
    Account {
        last_token_refresh: 100,
        last_gotcha_opened: 200,
        balance,
        token: "secret".to_string(),
        agent: "kakaopage/00000000000000ff".to_string(),
        proxy: Some("http://proxy.example:8080".to_string()),
    }
}

fn item(title: &str) -> Single {
    Single {
        title: title.to_string(),
        viewer: Viewer::ImageList(vec![Image { size: 3, kid: "k".to_string() }]),
        prev: Some(1),
        next: None,
    }
}

#[test]
fn unknown_account_is_not_found() {
    let states = States::new();
    let error = states.get_acc(42).unwrap_err();
    assert_eq!(error.kind, ErrorKind::NotFound);
    assert_eq!(error.message, "account 42 does not exist");
    let error = states.get_acc(-7).unwrap_err();
    assert_eq!(error.message, "account -7 does not exist");
    assert!(!states.has_acc(42));
}

#[test]
fn account_is_copied_out_of_its_slot() {
    let mut states = States::new();
    states.put_acc(1, &account(10));
    assert_eq!(states.get_acc(1).unwrap(), account(10));
    assert!(states.has_acc(1));
    assert_eq!(states.account_ids(), vec![1]);
    states.put_acc(1, &account(11));
    assert_eq!(states.get_acc(1).unwrap().balance, 11);
}

#[test]
fn series_is_created_on_first_reference() {
    let mut states = States::new();
    assert_eq!(states.series_ids(), Vec::<i64>::new());
    let series = states.get_srs(9);
    assert_eq!(series.ticket_ids(), Vec::<i64>::new());
    assert_eq!(series.single_ids(), Vec::<i64>::new());
    // the series is in the store from the first reference on
    assert_eq!(states.series_ids(), vec![9]);
    drop(series);
    assert_eq!(states.series_ids(), vec![9]);
    assert_eq!(states.save().serieses.len(), 1);
}

#[test]
fn series_that_is_known_is_never_evicted() {
    let mut states = States::new();
    let mut series = states.get_srs(9);
    series.set_tkt(1, Ticket { wait_free: 2, permanent: 3 });
    series.put_single(4, &item("kept"));
    states.put_srs(9, series);
    // a reference hands out what the slot holds, and the slot keeps it
    let first = states.get_srs(9);
    let second = states.get_srs(9);
    for copy in [&first, &second] {
        assert_eq!(copy.get_tkt(1).unwrap(), Ticket { wait_free: 2, permanent: 3 });
        assert_eq!(copy.get_single(4), Some(item("kept")));
    }
    assert_eq!(states.series_ids(), vec![9]);
    // what is changed in a copy reaches the slot when it is written
    let mut changed = first;
    changed.set_tkt(1, Ticket { wait_free: 2, permanent: 0 });
    assert_eq!(states.get_srs(9).get_tkt(1).unwrap().permanent, 3);
    states.put_srs(9, changed);
    assert_eq!(states.get_srs(9).get_tkt(1).unwrap().permanent, 0);
    assert_eq!(states.get_srs(9).get_single(4), Some(item("kept")));
}

#[test]
fn copy_of_a_series_holds_what_the_series_holds() {
    let mut series = Series::new();
    series.set_tkt(1, Ticket { wait_free: 2, permanent: 3 });
    series.put_single(4, &item("a"));
    let copy = series.duplicate();
    series.set_tkt(1, Ticket { wait_free: 0, permanent: 0 });
    assert_eq!(copy.get_tkt(1).unwrap(), Ticket { wait_free: 2, permanent: 3 });
    assert_eq!(copy.get_single(4), Some(item("a")));
}

#[test]
fn unknown_ticket_slot_is_not_found() {
    let series = Series::new();
    let error = series.get_tkt(3).unwrap_err();
    assert_eq!(error.kind, ErrorKind::NotFound);
    assert_eq!(error.message, "account 3 does not exist for this series");
    assert!(!series.has_tkt(3));
}

#[test]
fn ticket_slot_keeps_what_was_written() {
    let mut series = Series::new();
    series.set_tkt(3, Ticket { wait_free: 5, permanent: 6 });
    assert_eq!(series.get_tkt(3).unwrap(), Ticket { wait_free: 5, permanent: 6 });
    assert!(series.has_tkt(3));
    series.set_tkt(3, Ticket { wait_free: 7, permanent: 8 });
    assert_eq!(series.get_tkt(3).unwrap(), Ticket { wait_free: 7, permanent: 8 });
    assert_eq!(series.ticket_ids(), vec![3]);
}

#[test]
fn default_ticket_knows_nothing() {
    assert_eq!(Ticket::default(), Ticket { wait_free: 0, permanent: 0 });
    assert_eq!(NONE_PENDING, i64::MAX);
}

#[test]
fn ready_accounts_are_filtered_in_order() {
    let mut series = Series::new();
    series.set_tkt(1, Ticket { wait_free: 50, permanent: 0 });
    series.set_tkt(2, Ticket { wait_free: 0, permanent: 3 });
    series.set_tkt(3, Ticket { wait_free: 99, permanent: 1 });
    series.set_tkt(4, Ticket { wait_free: NONE_PENDING, permanent: 0 });
    let order = vec![4, 3, 2, 1, 8];
    assert_eq!(series.wait_free_ready(&order, 100), vec![3, 1]);
    assert_eq!(series.wait_free_ready(&order, 99), vec![1]);
    assert_eq!(series.permanent_ready(&order), vec![3, 2]);
}

#[test]
fn cached_item_is_handed_out_as_it_was_cached() {
    let mut series = Series::new();
    assert_eq!(series.get_single(1), None);
    series.put_single(1, &item("one"));
    assert_eq!(series.get_single(1), Some(item("one")));
    series.put_single(1, &item("other"));
    assert_eq!(series.get_single(1), Some(item("other")));
    assert_eq!(series.single_ids(), vec![1]);
}

#[test]
fn ledger_formula() {
    assert_eq!(compute_ledger(2, 3, false, NONE_PENDING, 100), Ticket { wait_free: NONE_PENDING, permanent: 5 });
    assert_eq!(compute_ledger(2, 3, true, NONE_PENDING, 100), Ticket { wait_free: NONE_PENDING, permanent: 4 });
    assert_eq!(compute_ledger(2, 3, false, 99, 100), Ticket { wait_free: 99, permanent: 4 });
    assert_eq!(compute_ledger(2, 3, false, 100, 100), Ticket { wait_free: 100, permanent: 5 });
    assert_eq!(compute_ledger(0, 0, true, 99, 100), Ticket { wait_free: 99, permanent: 0 });
    assert_eq!(compute_ledger(-4, 1, false, 0, 100), Ticket { wait_free: 0, permanent: 0 });
    assert_eq!(
        compute_ledger(i64::MAX, i64::MAX, false, NONE_PENDING, 100),
        Ticket { wait_free: NONE_PENDING, permanent: i64::MAX }
    );
}

#[test]
fn wait_free_time_is_read_from_the_report() {
    assert_eq!(read_wait_free(&None).unwrap(), NONE_PENDING);
    assert_eq!(read_wait_free(&Some("1970-01-01T00:01:00.000Z".to_string())).unwrap(), 60);
    let error: Error = read_wait_free(&Some("never".to_string())).unwrap_err();
    assert_eq!(error.message, "invalid timestamp: never");
}

#[test]
fn use_ticket_keeps_the_time_of_the_free_redemption() {
    let mut states = States::new();
    let mut series = states.get_srs(1);
    series.set_tkt(7, Ticket { wait_free: 1, permanent: 2 });
    states.put_srs(1, series);
    use_ticket(&mut states, 7, 1, &None).unwrap();
    let series = states.get_srs(1);
    assert_eq!(series.get_tkt(7).unwrap(), Ticket { wait_free: 1, permanent: 2 });
    states.put_srs(1, series);
    use_ticket(&mut states, 7, 1, &Some("1970-01-01T00:01:00.000Z".to_string())).unwrap();
    let series = states.get_srs(1);
    assert_eq!(series.get_tkt(7).unwrap(), Ticket { wait_free: 60, permanent: 2 });
    states.put_srs(1, series);
}

#[test]
fn use_ticket_reads_the_time_before_it_refers_to_the_series() {
    let mut states = States::new();
    let error = use_ticket(&mut states, 7, 1, &Some("bad".to_string())).unwrap_err();
    assert_eq!(error.kind, ErrorKind::RemoteProtocol);
    assert_eq!(states.series_ids(), Vec::<i64>::new());
    let error =
        use_ticket(&mut states, 7, 1, &Some("1970-01-01T00:01:00".to_string())).unwrap_err();
    assert_eq!(error.kind, ErrorKind::NotFound);
    assert_eq!(error.message, "account 7 does not exist for this series");
    assert_eq!(states.series_ids(), vec![1]);
}

#[test]
fn persistence_round_trip() {
    let mut states = States::new();
    states.put_acc(1, &account(10));
    states.put_acc(2, &account(20));
    let mut series = states.get_srs(5);
    series.set_tkt(1, Ticket { wait_free: 3, permanent: 4 });
    series.set_tkt(2, Ticket { wait_free: NONE_PENDING, permanent: 0 });
    series.put_single(100, &item("a"));
    states.put_srs(5, series);
    let series = states.get_srs(6);
    states.put_srs(6, series);

    let tables = states.save();
    let mut loaded = States::load(&tables);

    let mut ids = loaded.account_ids();
    ids.sort();
    assert_eq!(ids, vec![1, 2]);
    assert_eq!(loaded.get_acc(1).unwrap(), account(10));
    assert_eq!(loaded.get_acc(2).unwrap(), account(20));
    let mut ids = loaded.series_ids();
    ids.sort();
    assert_eq!(ids, vec![5, 6]);
    let series = loaded.get_srs(5);
    assert_eq!(series.get_tkt(1).unwrap(), Ticket { wait_free: 3, permanent: 4 });
    assert_eq!(series.get_tkt(2).unwrap(), Ticket { wait_free: NONE_PENDING, permanent: 0 });
    assert_eq!(series.get_single(100), Some(item("a")));
    loaded.put_srs(5, series);
    assert_eq!(loaded.registration(5), None);

    // the store that was saved is as it was
    assert_eq!(states.get_acc(1).unwrap(), account(10));
    let mut again = states.save();
    let mut first = tables.clone();
    for t in [&mut again, &mut first] {
        t.accounts.sort_by_key(|e| e.0);
        t.serieses.sort_by_key(|e| e.0);
        for s in t.serieses.iter_mut() {
            s.1.ticket_map.sort_by_key(|e| e.0);
            s.1.single_map.sort_by_key(|e| e.0);
        }
    }
    assert_eq!(again, first);
}

#[test]
fn load_takes_the_last_entry_of_a_key() {
    let tables = Tables {
        accounts: vec![(1, account(1)), (1, account(2))],
        serieses: vec![(
            3,
            SeriesRecord {
                single_map: vec![],
                ticket_map: vec![
                    (1, Ticket { wait_free: 0, permanent: 1 }),
                    (1, Ticket { wait_free: 0, permanent: 9 }),
                ],
            },
        )],
    };
    let mut states = States::load(&tables);
    assert_eq!(states.get_acc(1).unwrap().balance, 2);
    let series = states.get_srs(3);
    assert_eq!(series.get_tkt(1).unwrap().permanent, 9);
    states.put_srs(3, series);
}

#[test]
fn agent_is_the_seed_in_sixteen_hex_digits() {
    assert_eq!(agent_of(0), "kakaopage/0000000000000000");
    assert_eq!(agent_of(255), "kakaopage/00000000000000ff");
    assert_eq!(agent_of(0x0123_4567_89ab_cdef), "kakaopage/0123456789abcdef");
    assert_eq!(agent_of(u64::MAX), "kakaopage/ffffffffffffffff");
}

#[test]
fn generated_agent_has_the_form_of_an_agent() {
    let agent = generate_agent();
    assert_eq!(agent.len(), 26);
    assert!(agent.starts_with("kakaopage/"));
    let seed = u64::from_str_radix(&agent[10..], 16).unwrap();
    assert_eq!(agent_of(seed), agent);
}

#[test]
fn gotcha_id_is_found_in_the_scheme() {
    assert_eq!(gotcha_id("kakaopage://open/gacha?gacha_uid=abc123&x=1").unwrap(), "abc123");
    assert_eq!(gotcha_id("kakaopage%3A%2F%2Fopen%3Fgacha_uid%3Dxyz").unwrap(), "xyz");
}

#[test]
fn gotcha_id_is_found_in_the_wrapped_address() {
    // the inner address is encoded twice in the scheme
    let inner = "https://page.example/event?id=777&from=news";
    let once = urlencode(inner);
    let scheme = format!("kakaopage://open?open_enc_url_with_auth={}", urlencode(&once));
    assert_eq!(gotcha_id(&scheme).unwrap(), "777");
}

fn urlencode(text: &str) -> String {
    let mut out = String::new();
    for b in text.bytes() {
        if b.is_ascii_alphanumeric() {
            out.push(b as char);
        } else {
            out.push_str(&format!("%{:02X}", b));
        }
    }
    out
}

#[test]
fn gotcha_id_fails_without_a_reference() {
    let error = gotcha_id("kakaopage://open?nothing=1").unwrap_err();
    assert_eq!(error.kind, ErrorKind::ParamExtraction);
    assert_eq!(error.message, "could not get param gacha_uid in kakaopage://open?nothing=1");
}

#[test]
fn gotcha_id_fails_on_bytes_that_are_not_text() {
    let error = gotcha_id("gacha_uid=%FF").unwrap_err();
    assert_eq!(error.kind, ErrorKind::RemoteProtocol);
    assert_eq!(error.message, "invalid percent-encoding: gacha_uid=%FF");
}

#[test]
fn gotcha_reference_prefers_the_wrapped_address() {
    assert_eq!(
        gotcha_ref("a?open_enc_url_with_auth=inner&gacha_uid=5").unwrap(),
        GotchaRef::Link("inner".to_string())
    );
    assert_eq!(gotcha_ref("a?gacha_uid=5").unwrap(), GotchaRef::Id("5".to_string()));
    assert_eq!(linked_gotcha_id("x?id=12&y").unwrap(), "12");
    assert_eq!(linked_gotcha_id("x").unwrap_err().kind, ErrorKind::ParamExtraction);
}

fn news(log_name: &str, date: &str, scheme: &str) -> News {
    News { log_name: log_name.to_string(), date: date.to_string(), scheme: scheme.to_string() }
}

#[test]
fn gotcha_run_draws_the_awards_that_are_new() {
    let mut states = States::new();
    states.put_acc(1, &account(0)); // last_gotcha_opened: 200
    let list = vec![
        news("Notice", "not a date", "x"),
        news("Award", "1970-01-01T00:03:00.000Z", "a?gacha_uid=old"),
        news("Award", "1970-01-01T00:10:00.000Z", "a?gacha_uid=first"),
        news("Award", "1970-01-01T00:05:00.000Z", "a?gacha_uid=second"),
    ];
    let mut run = Account::check_gotchas(&states, 1, list).unwrap();
    assert_eq!(run.last_opened, 200);
    assert_eq!(run.next().unwrap(), Some("first".to_string()));
    assert_eq!(run.max_date, 600);
    assert_eq!(run.next().unwrap(), Some("second".to_string()));
    assert_eq!(run.max_date, 600);
    assert_eq!(run.next().unwrap(), None);
    assert_eq!(run.next().unwrap(), None);
    run.finish(&mut states, 1).unwrap();
    assert_eq!(states.get_acc(1).unwrap().last_gotcha_opened, 600);
    assert_eq!(states.get_acc(1).unwrap().balance, 0);
}

#[test]
fn gotcha_run_without_awards_keeps_the_account() {
    let mut states = States::new();
    states.put_acc(1, &account(0));
    let mut run = Account::check_gotchas(&states, 1, vec![news("Notice", "", "")]).unwrap();
    assert_eq!(run.next().unwrap(), None);
    run.finish(&mut states, 1).unwrap();
    assert_eq!(states.get_acc(1).unwrap(), account(0));
}

#[test]
fn gotcha_run_stops_at_an_award_that_cannot_be_read() {
    let mut states = States::new();
    states.put_acc(1, &account(0));
    let list = vec![
        news("Award", "1970-01-01T00:10:00.000Z", "a?gacha_uid=first"),
        news("Award", "whenever", "a?gacha_uid=second"),
    ];
    let mut run = Account::check_gotchas(&states, 1, list).unwrap();
    assert_eq!(run.next().unwrap(), Some("first".to_string()));
    let error = run.next().unwrap_err();
    assert_eq!(error.message, "invalid timestamp: whenever");
    assert_eq!(run.at, 1);
}

#[test]
fn gotcha_run_of_an_unknown_account_is_not_found() {
    let states = States::new();
    let error = Account::check_gotchas(&states, 4, vec![]).unwrap_err();
    assert_eq!(error.kind, ErrorKind::NotFound);
    assert_eq!(error.message, "account 4 does not exist");
}

#[test]
fn balance_and_token_refresh_are_kept() {
    let mut states = States::new();
    states.put_acc(1, &account(0));
    Account::check_balance(&mut states, 1, 1234).unwrap();
    Account::refresh_token(&mut states, 1, 99_999).unwrap();
    let held = states.get_acc(1).unwrap();
    assert_eq!(held.balance, 1234);
    assert_eq!(held.last_token_refresh, 99_999);
    assert_eq!(held.last_gotcha_opened, 200);
    assert_eq!(held.token, "secret");
    assert_eq!(Account::check_balance(&mut states, 2, 1).unwrap_err().kind, ErrorKind::NotFound);
    assert_eq!(Account::refresh_token(&mut states, 2, 1).unwrap_err().kind, ErrorKind::NotFound);
    assert!(!states.has_acc(2));
}

#[test]
fn gift_tickets_that_are_not_received_are_listed() {
    let gifts = vec![
        Gift { is_received: true, ticket_uid: 1, scheme: String::new() },
        Gift { is_received: false, ticket_uid: 2, scheme: String::new() },
        Gift { is_received: false, ticket_uid: 3, scheme: String::new() },
        Gift { is_received: true, ticket_uid: 4, scheme: String::new() },
    ];
    assert_eq!(Account::check_tickets(&gifts), vec![2, 3]);
    assert_eq!(Account::check_tickets(&vec![]), Vec::<i32>::new());
    assert_eq!(gift_ticket_type(), "TodayGift");
}

#[test]
fn token_delay_is_what_is_left_of_the_hour() {
    assert_eq!(token_delay(1000, 1000), 3600);
    assert_eq!(token_delay(1000 + 600, 1000), 3000);
    assert_eq!(token_delay(1000 + 3599, 1000), 1);
    assert_eq!(token_delay(1000 + 3600, 1000), 0);
    assert_eq!(token_delay(1000 + 9999, 1000), 0);
    assert_eq!(token_delay(1000, 1500), 4100);
    assert_eq!(token_delay(i64::MIN, i64::MAX), u64::MAX);
}

#[test]
fn timer_waits() {
    let mut states = States::new();
    states.put_acc(1, &account(0)); // last_token_refresh: 100
    assert_eq!(Timer::Token(1).wait_with(&states, 700, 0).unwrap(), 3000);
    assert_eq!(Timer::Token(2).wait_with(&states, 700, 0).unwrap_err().kind, ErrorKind::NotFound);
    assert_eq!(Timer::Rewards(1).wait_with(&states, 0, 0).unwrap(), 2400);
    assert_eq!(Timer::Rewards(1).wait_with(&states, 0, 2399).unwrap(), 4799);
    assert_eq!(Timer::Rewards(1).wait_with(&states, 0, 2400).unwrap(), 2400);
    assert_eq!(Timer::Gifts(1).wait_with(&states, 0, 9601).unwrap(), 9601);
    assert_eq!(Timer::Gifts(1).wait_with(&states, 0, 5).unwrap(), 9605);
    assert_eq!(Timer::Snapshot.wait_with(&states, 0, 77).unwrap(), 3600);
    assert_eq!(SNAPSHOT_PERIOD, 3600);
    let wait = Timer::Rewards(1).wait(&states, 0).unwrap();
    assert!((2400..4800).contains(&wait));
    let wait = Timer::Gifts(1).wait(&states, 0).unwrap();
    assert!((9600..19200).contains(&wait));
    assert_eq!(pause_of(0), 200);
    assert_eq!(pause_of(399), 399);
    assert_eq!(pause_of(400), 200);
    assert!((200..400).contains(&pause()));
}

#[test]
fn timers_are_three_for_each_account_and_the_snapshot() {
    assert_eq!(
        timers_for(&vec![4, 2]),
        vec![
            Timer::Token(4),
            Timer::Rewards(4),
            Timer::Gifts(4),
            Timer::Token(2),
            Timer::Rewards(2),
            Timer::Gifts(2),
            Timer::Snapshot
        ]
    );
    assert_eq!(timers_for(&vec![]), vec![Timer::Snapshot]);
    let mut states = States::new();
    states.put_acc(1, &account(0));
    assert_eq!(
        states.start_timers(),
        vec![Timer::Token(1), Timer::Rewards(1), Timer::Gifts(1), Timer::Snapshot]
    );
}

#[test]
fn snapshot_rotates_the_generations() {
    assert_eq!(
        snapshot_steps("accounts.json"),
        vec![
            FileStep::Write("accounts.json.new".to_string()),
            FileStep::Remove("accounts.json.old".to_string()),
            FileStep::Rename("accounts.json".to_string(), "accounts.json.old".to_string()),
            FileStep::Rename("accounts.json.new".to_string(), "accounts.json".to_string()),
        ]
    );
    assert_eq!(table_paths(), vec!["accounts.json", "serieses.json", "config.json"]);
}

#[test]
fn failed_write_ends_the_save_and_other_failures_are_passed_over() {
    let outcomes: Vec<Failed> =
        snapshot_steps("config.json").iter().map(|step| step.on_failure()).collect();
    assert_eq!(
        outcomes,
        vec![Failed::EndsSave, Failed::PassedOver, Failed::PassedOver, Failed::PassedOver]
    );
}

#[test]
fn token_follows_the_cookie_of_the_service() {
    let mut token = Token("old".to_string());
    token
        .set_cookies(
            Some("page.kakao.com"),
            &vec!["other=1; Path=/".to_string(), "_kpwtkn=fresh; HttpOnly".to_string()],
        )
        .unwrap();
    assert_eq!(token, Token("fresh".to_string()));
    token.set_cookies(Some("elsewhere.example"), &vec!["_kpwtkn=stolen".to_string()]).unwrap();
    assert_eq!(token, Token("fresh".to_string()));
    token.set_cookies(None, &vec!["_kpwtkn=stolen".to_string()]).unwrap();
    assert_eq!(token, Token("fresh".to_string()));
    token.set_cookie("_kpwtkn", "direct");
    assert_eq!(token, Token("direct".to_string()));
    token.set_cookie("kpwtkn", "no");
    assert_eq!(token, Token("direct".to_string()));
}

#[test]
fn token_stops_at_a_header_that_is_no_cookie() {
    let mut token = Token("old".to_string());
    let error = token
        .set_cookies(
            Some("page.kakao.com"),
            &vec![
                "_kpwtkn=one".to_string(),
                "no cookie here".to_string(),
                "_kpwtkn=two".to_string(),
            ],
        )
        .unwrap_err();
    assert_eq!(error.kind, ErrorKind::RemoteProtocol);
    assert_eq!(error.message, "invalid cookie: no cookie here");
    assert_eq!(token, Token("one".to_string()));
}

#[test]
fn token_is_sent_to_the_service_only() {
    let token = Token("abc".to_string());
    assert_eq!(token.cookies(Some("page.kakao.com")), Some("_kpwtkn=abc".to_string()));
    assert_eq!(token.cookies(Some("dn-img-page.kakao.com")), None);
    assert_eq!(token.cookies(None), None);
    assert!(is_service_host(Some("page.kakao.com")));
    assert!(!is_service_host(Some("page.kakao.co")));
}
