use whispr_backend::authority::handlers::{
    get_messages, init, post_message, reset_to_mock_data, send_message_as_authority,
    send_message_as_reporter, submit_report,
};
use whispr_backend::authority::identity::Identity;
use whispr_backend::authority::mock::{initialize_mock_data, seed_ledger, DAY_NS};
use whispr_backend::authority::store::{
    add_authority, get_all_reports, get_authority_stats, get_report_messages, get_user,
    is_authority, Store,
};
use whispr_backend::authority::types::{
    Authority, LedgerError, MessageSender, Missing, ReportStatus,
};

fn member(byte: u8) -> Identity {
    Identity::from_bytes(vec![byte, 1]).unwrap()
}

fn ledger() -> (Store, Identity, Identity, u64) {
    let boss = member(1);
    let reporter = member(2);
    let mut store = Store::new();
    add_authority(
        &mut store,
        Authority { id: boss.clone(), reports_reviewed: Vec::new(), approval_rate_bits: 0 },
    );
    let id = submit_report(
        &mut store,
        &reporter,
        "t".to_string(),
        "d".to_string(),
        "c".to_string(),
        None,
        None,
        10,
        0,
        100,
    )
    .unwrap();
    (store, boss, reporter, id)
}

#[test]
fn authority_and_reporter_talk_in_the_thread() {
    let (mut store, boss, reporter, id) = ledger();
    assert_eq!(
        send_message_as_reporter(&mut store, &reporter, id, "hello".to_string(), 200),
        Ok(())
    );
    assert_eq!(
        send_message_as_authority(&mut store, &boss, id, "thanks".to_string(), 300),
        Ok(())
    );
    let thread = get_messages(&store, &reporter, id);
    assert_eq!(thread.len(), 3);
    assert_eq!(thread[0].sender, MessageSender::System);
    assert_eq!(thread[1].sender, MessageSender::Reporter(reporter.clone()));
    assert_eq!(thread[1].content, "hello");
    assert_eq!(thread[1].timestamp, 200);
    assert_eq!(thread[1].attachment, None);
    assert_eq!(thread[2].sender, MessageSender::Authority(boss.clone()));
    assert_eq!(thread[2].content, "thanks");
    assert_eq!(thread[2].timestamp, 300);
    assert_eq!(thread.iter().map(|m| m.id).collect::<Vec<u64>>(), vec![1, 2, 3]);
    assert_eq!(get_messages(&store, &boss, id), thread);
}

#[test]
fn reporter_may_only_write_about_own_reports() {
    let (mut store, _boss, _reporter, id) = ledger();
    let other = member(3);
    assert_eq!(
        send_message_as_reporter(&mut store, &other, id, "hello".to_string(), 200),
        Err(LedgerError::Forbidden)
    );
    assert_eq!(
        send_message_as_reporter(&mut store, &Identity::anonymous(), id, "x".to_string(), 200),
        Err(LedgerError::Unauthenticated)
    );
    assert_eq!(get_report_messages(&store, id).len(), 1);
}

#[test]
fn messages_need_a_report() {
    let (mut store, boss, reporter, id) = ledger();
    assert_eq!(
        send_message_as_reporter(&mut store, &reporter, id + 1, "hello".to_string(), 200),
        Err(LedgerError::NotFound(Missing::Report))
    );
    assert_eq!(
        send_message_as_authority(&mut store, &boss, id + 1, "hello".to_string(), 200),
        Err(LedgerError::NotFound(Missing::Report))
    );
    assert_eq!(
        post_message(&mut store, 0, MessageSender::System, "x".to_string(), None, 1),
        Err(LedgerError::NotFound(Missing::Report))
    );
    assert!(get_report_messages(&store, id + 1).is_empty());
    assert!(get_report_messages(&store, 0).is_empty());
}

#[test]
fn authority_messages_need_an_authority() {
    let (mut store, _boss, reporter, id) = ledger();
    assert_eq!(
        send_message_as_authority(&mut store, &reporter, id, "hello".to_string(), 200),
        Err(LedgerError::NotAuthority)
    );
    assert_eq!(
        send_message_as_authority(&mut store, &Identity::anonymous(), id, "x".to_string(), 200),
        Err(LedgerError::Unauthenticated)
    );
    assert_eq!(get_report_messages(&store, id).len(), 1);
}

#[test]
fn posted_messages_carry_their_attachment() {
    let (mut store, boss, reporter, id) = ledger();
    assert_eq!(
        post_message(
            &mut store,
            id,
            MessageSender::Reporter(reporter.clone()),
            "see file".to_string(),
            Some(vec![1, 2]),
            7,
        ),
        Ok(())
    );
    assert_eq!(
        post_message(
            &mut store,
            id,
            MessageSender::Reporter(boss.clone()),
            "not mine".to_string(),
            None,
            8,
        ),
        Err(LedgerError::Forbidden)
    );
    let thread = get_report_messages(&store, id);
    assert_eq!(thread.len(), 2);
    assert_eq!(thread[1].attachment, Some(vec![1, 2]));
    assert_eq!(thread[1].content, "see file");
}

#[test]
fn seed_data_go_into_an_empty_store() {
    let now = 40 * DAY_NS;
    let mut store = Store::new();
    initialize_mock_data(&mut store, now);

    let reports = get_all_reports(&store);
    assert_eq!(reports.iter().map(|r| r.id).collect::<Vec<u64>>(), vec![1, 2, 3, 4, 5]);
    assert_eq!(
        reports.iter().map(|r| r.stake_amount).collect::<Vec<u64>>(),
        vec![15, 20, 10, 5, 25]
    );
    assert!(reports.iter().all(|r| r.status == ReportStatus::Pending));
    assert_eq!(reports[0].title, "Environmental Dumping Near River");
    assert_eq!(reports[0].category, "environmental");
    assert_eq!(reports[0].date_submitted, now - 5 * DAY_NS);
    assert_eq!(reports[0].incident_date, Some("2025-04-21".to_string()));
    assert_eq!(reports[0].evidence_count, 3);
    let place = reports[0].location.as_ref().unwrap();
    assert_eq!(place.address, Some("Near Industrial Zone, South River Bank".to_string()));
    assert_eq!(f64::from_bits(place.latitude_bits), 20.5937);
    assert_eq!(f64::from_bits(place.longitude_bits), 78.9629);
    assert_eq!(reports[4].date_submitted, now - 34 * DAY_NS);
    assert_eq!(f64::from_bits(reports[4].location.as_ref().unwrap().latitude_bits), 34.0837);
    assert_eq!(f64::from_bits(reports[4].location.as_ref().unwrap().longitude_bits), 74.7973);
    assert_eq!(f64::from_bits(reports[1].location.as_ref().unwrap().latitude_bits), 19.0760);
    assert_eq!(f64::from_bits(reports[1].location.as_ref().unwrap().longitude_bits), 72.8777);
    assert_eq!(f64::from_bits(reports[2].location.as_ref().unwrap().latitude_bits), 28.6139);
    assert_eq!(f64::from_bits(reports[2].location.as_ref().unwrap().longitude_bits), 77.2090);
    assert_eq!(f64::from_bits(reports[3].location.as_ref().unwrap().latitude_bits), 13.0827);
    assert_eq!(f64::from_bits(reports[3].location.as_ref().unwrap().longitude_bits), 80.2707);

    let authority = Identity::from_text(
        "d27x5-vpdgv-xg4ve-woszp-ulej4-4hlq4-xrlwz-nyedm-rtjsa-a2d2z-oqe",
    )
    .unwrap();
    assert!(is_authority(&store, &authority));

    // The text of the second user is no principal, so it shares the anonymous
    // identity with the first: one account, which holds the stakes of both.
    let shared = get_user(&store, &Identity::anonymous()).unwrap();
    assert_eq!(shared.token_balance, 750);
    assert_eq!(shared.reports_submitted, vec![1, 2, 4]);
    assert_eq!(shared.stakes_active, 15 + 20 + 5);
    assert_eq!(shared.stakes_lost, 0);
    assert_eq!(shared.rewards_earned, 0);
    let third = get_user(&store, &Identity::from_bytes(vec![0]).unwrap()).unwrap();
    assert_eq!(third.token_balance, 1000);
    assert_eq!(third.reports_submitted, vec![3, 5]);
    assert_eq!(third.stakes_active, 35);

    let first_thread = get_report_messages(&store, 1);
    assert_eq!(first_thread.len(), 2);
    assert_eq!(first_thread[0].content, "I have submitted additional evidence via email.");
    assert_eq!(first_thread[0].sender, MessageSender::Reporter(Identity::anonymous()));
    assert_eq!(first_thread[0].timestamp, now - DAY_NS);
    assert_eq!(first_thread[1].sender, MessageSender::Authority(authority.clone()));
    assert_eq!(first_thread[1].timestamp, now - DAY_NS / 2);
    let third_thread = get_report_messages(&store, 3);
    assert_eq!(third_thread.len(), 1);
    assert_eq!(third_thread[0].id, 3);
    assert_eq!(third_thread[0].timestamp, now - 2 * DAY_NS);

    let stats = get_authority_stats(&store);
    assert_eq!(stats.reports_pending, 5);
    assert_eq!(stats.reports_verified, 0);
    assert_eq!(stats.reports_rejected, 0);
    assert_eq!(stats.total_rewards_distributed, 0);
    assert_eq!(
        stats.reports_pending + stats.reports_verified + stats.reports_rejected,
        get_all_reports(&store).len() as u64
    );
}

fn escrow_agrees(store: &Store, who: &Identity) -> bool {
    let held: u64 = get_all_reports(store)
        .iter()
        .filter(|r| r.submitter_id == *who && r.status == ReportStatus::Pending)
        .map(|r| r.stake_amount)
        .sum();
    let filed: Vec<u64> = get_all_reports(store)
        .iter()
        .filter(|r| r.submitter_id == *who)
        .map(|r| r.id)
        .collect();
    let account = get_user(store, who).unwrap();
    account.stakes_active == held && account.reports_submitted == filed
}

#[test]
fn seeding_three_different_users_stakes_each_their_own() {
    let now = 40 * DAY_NS;
    let mut store = Store::new();
    seed_ledger(&mut store, member(9), member(1), member(2), member(3), now);
    assert!(is_authority(&store, &member(9)));
    let reports = get_all_reports(&store);
    assert_eq!(reports.iter().map(|r| r.id).collect::<Vec<u64>>(), vec![1, 2, 3, 4, 5]);
    assert_eq!(
        reports.iter().map(|r| r.submitter_id.clone()).collect::<Vec<Identity>>(),
        vec![member(1), member(2), member(3), member(1), member(3)]
    );
    assert!(reports
        .iter()
        .all(|r| r.reward_amount == 0 && r.reviewer.is_none() && r.review_date.is_none()));
    let first = get_user(&store, &member(1)).unwrap();
    assert_eq!((first.token_balance, first.stakes_active), (500, 20));
    assert_eq!(first.reports_submitted, vec![1, 4]);
    let second = get_user(&store, &member(2)).unwrap();
    assert_eq!((second.token_balance, second.stakes_active), (750, 20));
    assert_eq!(second.reports_submitted, vec![2]);
    let third = get_user(&store, &member(3)).unwrap();
    assert_eq!((third.token_balance, third.stakes_active), (1000, 35));
    assert_eq!(third.reports_submitted, vec![3, 5]);
    for who in [member(1), member(2), member(3)] {
        assert!(escrow_agrees(&store, &who));
    }
    assert_eq!(get_report_messages(&store, 1).len(), 2);
    assert_eq!(get_report_messages(&store, 1)[1].sender, MessageSender::Authority(member(9)));
    assert_eq!(get_report_messages(&store, 3)[0].sender, MessageSender::Reporter(member(3)));
    assert_eq!(get_authority_stats(&store).reports_pending, 5);
    assert_eq!(get_authority_stats(&store).reports_verified, 0);
}

#[test]
fn seeding_coinciding_users_keeps_the_escrow_in_step() {
    let now = 40 * DAY_NS;
    let mut store = Store::new();
    seed_ledger(&mut store, member(9), member(1), member(1), member(1), now);
    let only = get_user(&store, &member(1)).unwrap();
    assert_eq!(only.token_balance, 1000);
    assert_eq!(only.stakes_active, 75);
    assert_eq!(only.reports_submitted, vec![1, 2, 3, 4, 5]);
    assert!(escrow_agrees(&store, &member(1)));

    let mut store = Store::new();
    initialize_mock_data(&mut store, now);
    assert!(escrow_agrees(&store, &Identity::anonymous()));
    assert!(escrow_agrees(&store, &Identity::from_bytes(vec![0]).unwrap()));
}

#[test]
fn seeded_ledger_settles_like_any_other() {
    let now = 40 * DAY_NS;
    let mut store = Store::new();
    seed_ledger(&mut store, member(9), member(1), member(2), member(3), now);
    assert_eq!(
        whispr_backend::authority::handlers::verify_report(&mut store, &member(9), 2, None, now),
        Ok(())
    );
    assert_eq!(
        whispr_backend::authority::handlers::reject_report(&mut store, &member(9), 4, None, now),
        Ok(())
    );
    let stats = get_authority_stats(&store);
    assert_eq!(
        (stats.reports_pending, stats.reports_verified, stats.reports_rejected),
        (3, 1, 1)
    );
    assert_eq!(stats.total_rewards_distributed, 200);
    assert_eq!(get_user(&store, &member(2)).unwrap().token_balance, 750 + 20 + 200);
    assert_eq!(get_user(&store, &member(1)).unwrap().stakes_lost, 5);
    for who in [member(1), member(2), member(3)] {
        assert!(escrow_agrees(&store, &who));
    }
}

#[test]
fn seed_data_leave_a_store_with_reports_alone() {
    let (mut store, boss, reporter, id) = ledger();
    initialize_mock_data(&mut store, 40 * DAY_NS);
    assert_eq!(get_all_reports(&store).len(), 1);
    assert_eq!(get_authority_stats(&store).reports_pending, 1);
    assert!(get_user(&store, &Identity::anonymous()).is_none());
    assert_eq!(reset_to_mock_data(&mut store, &boss, 40 * DAY_NS), Ok(()));
    assert_eq!(get_all_reports(&store).len(), 1);
    assert_eq!(
        reset_to_mock_data(&mut store, &reporter, 40 * DAY_NS),
        Err(LedgerError::NotAuthority)
    );
    assert_eq!(get_report_messages(&store, id).len(), 1);
}

#[test]
fn init_seeds_a_new_ledger() {
    let mut store = Store::new();
    init(&mut store, 34 * DAY_NS);
    assert_eq!(get_all_reports(&store).len(), 5);
    assert_eq!(get_all_reports(&store)[4].date_submitted, 0);
    init(&mut store, 50 * DAY_NS);
    assert_eq!(get_all_reports(&store).len(), 5);
    assert_eq!(get_all_reports(&store)[4].date_submitted, 0);
}
