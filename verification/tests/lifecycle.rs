use whispr_backend::authority::handlers::{
    add_new_authority, get_all_reports, get_authority_statistics, get_messages, get_report,
    get_reports_by_status, get_user_balance, get_user_reports, reject_report, submit_report,
    verify_report, STARTING_BALANCE,
};
use whispr_backend::authority::identity::Identity;
use whispr_backend::authority::store::{
    add_authority, create_or_update_user, get_authority_stats, get_user, update_reward_config,
    Store,
};
use whispr_backend::authority::types::{
    Authority, LedgerError, Location, MessageSender, Missing, ReportStatus, RewardConfig, User,
};

fn identity(byte: u8) -> Identity {
    Identity::from_bytes(vec![byte, 7, 7]).unwrap()
}

fn ledger_with_authority(authority: &Identity) -> Store {
    let mut store = Store::new();
    add_authority(
        &mut store,
        Authority { id: authority.clone(), reports_reviewed: Vec::new(), approval_rate_bits: 0 },
    );
    store
}

fn submit(store: &mut Store, caller: &Identity, stake: u64, now: u64) -> Result<u64, LedgerError> {
    submit_report(
        store,
        caller,
        "Title".to_string(),
        "Description".to_string(),
        "fraud".to_string(),
        Some(Location {
            address: Some("Somewhere".to_string()),
            latitude_bits: 20.5f64.to_bits(),
            longitude_bits: 78.25f64.to_bits(),
        }),
        Some("2025-04-21".to_string()),
        stake,
        2,
        now,
    )
}

#[test]
fn submit_then_verify_then_verify_again() {
    let boss = identity(1);
    let reporter = identity(2);
    let mut store = ledger_with_authority(&boss);

    let id = submit(&mut store, &reporter, 15, 1_000).unwrap();
    assert_eq!(id, 1);
    assert_eq!(get_user_balance(&store, &reporter), 85);
    let account = get_user(&store, &reporter).unwrap();
    assert_eq!(account.stakes_active, 15);
    assert_eq!(account.reports_submitted, vec![1]);
    let report = whispr_backend::authority::store::get_report(&store, id).unwrap();
    assert_eq!(report.status, ReportStatus::Pending);

    assert_eq!(verify_report(&mut store, &boss, id, Some("fine".to_string()), 2_000), Ok(()));
    assert_eq!(get_user_balance(&store, &reporter), 250);
    let account = get_user(&store, &reporter).unwrap();
    assert_eq!(account.stakes_active, 0);
    assert_eq!(account.rewards_earned, 150);
    assert_eq!(account.stakes_lost, 0);
    let report = whispr_backend::authority::store::get_report(&store, id).unwrap();
    assert_eq!(report.status, ReportStatus::Approved);
    assert_eq!(report.reward_amount, 150);
    assert_eq!(report.reviewer, Some(boss.clone()));
    assert_eq!(report.review_date, Some(2_000));
    assert_eq!(report.review_notes, Some("fine".to_string()));

    assert_eq!(
        verify_report(&mut store, &boss, id, None, 3_000),
        Err(LedgerError::InvalidState(ReportStatus::Approved))
    );
    assert_eq!(get_user_balance(&store, &reporter), 250);
    let again = whispr_backend::authority::store::get_report(&store, id).unwrap();
    assert_eq!(again, report);
}

#[test]
fn submit_below_minimum_creates_nothing() {
    let reporter = identity(2);
    let mut store = Store::new();
    assert_eq!(submit(&mut store, &reporter, 3, 1_000), Err(LedgerError::InvalidStake));
    assert!(get_user(&store, &reporter).is_none());
    assert_eq!(get_user_balance(&store, &reporter), 0);
    assert!(whispr_backend::authority::store::get_all_reports(&store).is_empty());
    assert!(whispr_backend::authority::store::get_report_messages(&store, 1).is_empty());
    assert_eq!(get_authority_stats(&store).reports_pending, 0);
}

#[test]
fn submit_at_minimum_is_accepted() {
    let reporter = identity(2);
    let mut store = Store::new();
    assert_eq!(submit(&mut store, &reporter, 5, 1_000), Ok(1));
    assert_eq!(submit(&mut store, &reporter, 4, 1_000), Err(LedgerError::InvalidStake));
}

#[test]
fn submit_by_anonymous_is_unauthenticated() {
    let mut store = Store::new();
    assert_eq!(
        submit(&mut store, &Identity::anonymous(), 15, 1_000),
        Err(LedgerError::Unauthenticated)
    );
    assert!(get_user(&store, &Identity::anonymous()).is_none());
}

#[test]
fn submit_beyond_balance_is_refused() {
    let reporter = identity(2);
    let mut store = Store::new();
    assert_eq!(STARTING_BALANCE, 100);
    assert_eq!(submit(&mut store, &reporter, 101, 1_000), Err(LedgerError::InsufficientBalance));
    assert!(get_user(&store, &reporter).is_none());
    assert_eq!(submit(&mut store, &reporter, 100, 1_000), Ok(1));
    assert_eq!(get_user_balance(&store, &reporter), 0);
    assert_eq!(submit(&mut store, &reporter, 5, 1_000), Err(LedgerError::InsufficientBalance));
    assert_eq!(get_user(&store, &reporter).unwrap().stakes_active, 100);
}

#[test]
fn submit_moves_exactly_the_stake() {
    let reporter = identity(2);
    let mut store = Store::new();
    create_or_update_user(&mut store, User {
        id: reporter.clone(),
        token_balance: 1_000,
        reports_submitted: vec![],
        rewards_earned: 3,
        stakes_active: 40,
        stakes_lost: 9,
    });
    let id = submit(&mut store, &reporter, 250, 77).unwrap();
    let account = get_user(&store, &reporter).unwrap();
    assert_eq!(account.token_balance, 750);
    assert_eq!(account.stakes_active, 290);
    assert_eq!(account.rewards_earned, 3);
    assert_eq!(account.stakes_lost, 9);
    assert_eq!(account.reports_submitted, vec![id]);
    let report = whispr_backend::authority::store::get_report(&store, id).unwrap();
    assert_eq!(report.id, id);
    assert_eq!(report.title, "Title");
    assert_eq!(report.description, "Description");
    assert_eq!(report.category, "fraud");
    assert_eq!(report.date_submitted, 77);
    assert_eq!(report.incident_date, Some("2025-04-21".to_string()));
    assert_eq!(f64::from_bits(report.location.as_ref().unwrap().latitude_bits), 20.5);
    assert_eq!(report.submitter_id, reporter);
    assert_eq!(report.evidence_count, 2);
    assert!(report.evidence_files.is_empty());
    assert_eq!(report.stake_amount, 250);
    assert_eq!(report.reward_amount, 0);
    assert_eq!(report.status, ReportStatus::Pending);
    assert_eq!(report.reviewer, None);
    assert_eq!(report.review_date, None);
    assert_eq!(report.review_notes, None);
    let thread = whispr_backend::authority::store::get_report_messages(&store, id);
    assert_eq!(thread.len(), 1);
    assert_eq!(thread[0].id, 1);
    assert_eq!(thread[0].report_id, id);
    assert_eq!(thread[0].sender, MessageSender::System);
    assert_eq!(thread[0].content, "Report submitted with a stake of 250 tokens");
    assert_eq!(thread[0].timestamp, 77);
    assert_eq!(thread[0].attachment, None);
    assert_eq!(get_authority_stats(&store).reports_pending, 1);
}

#[test]
fn verify_shifts_one_report_from_pending_to_verified() {
    let boss = identity(1);
    let mut store = ledger_with_authority(&boss);
    let first = submit(&mut store, &identity(2), 10, 1).unwrap();
    let second = submit(&mut store, &identity(3), 20, 2).unwrap();
    let before = get_authority_stats(&store);
    assert_eq!(before.reports_pending, 2);
    assert_eq!(verify_report(&mut store, &boss, second, None, 3), Ok(()));
    let after = get_authority_stats(&store);
    assert_eq!(after.reports_pending, 1);
    assert_eq!(after.reports_verified, 1);
    assert_eq!(after.reports_rejected, 0);
    assert_eq!(after.total_rewards_distributed, 200);
    assert_eq!(get_user_balance(&store, &identity(3)), 100 - 20 + 20 + 200);
    assert_eq!(get_user_balance(&store, &identity(2)), 90);
    let thread = whispr_backend::authority::store::get_report_messages(&store, second);
    assert_eq!(thread.len(), 2);
    assert_eq!(
        thread[1].content,
        "This report has been verified. 200 tokens have been awarded as a reward."
    );
    assert_eq!(thread[1].sender, MessageSender::System);
    assert_eq!(thread[1].timestamp, 3);
    let untouched = whispr_backend::authority::store::get_report(&store, first).unwrap();
    assert_eq!(untouched.status, ReportStatus::Pending);
}

#[test]
fn verify_uses_the_multiplier_of_the_policy() {
    let boss = identity(1);
    let mut store = ledger_with_authority(&boss);
    update_reward_config(&mut store, RewardConfig {
        reward_multiplier: 3,
        min_stake_amount: 2,
        max_stake_amount: 4,
    });
    let id = submit(&mut store, &identity(2), 7, 1).unwrap();
    assert_eq!(verify_report(&mut store, &boss, id, None, 2), Ok(()));
    assert_eq!(get_user_balance(&store, &identity(2)), 100 - 7 + 7 + 21);
    assert_eq!(get_user(&store, &identity(2)).unwrap().rewards_earned, 21);
    assert_eq!(submit(&mut store, &identity(2), 1, 3), Err(LedgerError::InvalidStake));
}

#[test]
fn reject_forfeits_the_stake() {
    let boss = identity(1);
    let reporter = identity(2);
    let mut store = ledger_with_authority(&boss);
    let id = submit(&mut store, &reporter, 15, 1).unwrap();
    assert_eq!(reject_report(&mut store, &boss, id, Some("no".to_string()), 9), Ok(()));
    let account = get_user(&store, &reporter).unwrap();
    assert_eq!(account.token_balance, 85);
    assert_eq!(account.stakes_active, 0);
    assert_eq!(account.stakes_lost, 15);
    assert_eq!(account.rewards_earned, 0);
    let report = whispr_backend::authority::store::get_report(&store, id).unwrap();
    assert_eq!(report.status, ReportStatus::Rejected);
    assert_eq!(report.reward_amount, 0);
    assert_eq!(report.reviewer, Some(boss.clone()));
    assert_eq!(report.review_date, Some(9));
    assert_eq!(report.review_notes, Some("no".to_string()));
    let stats = get_authority_stats(&store);
    assert_eq!(stats.reports_pending, 0);
    assert_eq!(stats.reports_rejected, 1);
    assert_eq!(stats.reports_verified, 0);
    assert_eq!(stats.total_rewards_distributed, 0);
    let thread = whispr_backend::authority::store::get_report_messages(&store, id);
    assert_eq!(
        thread[1].content,
        "This report has been rejected. The staked 15 tokens have been lost."
    );
}

#[test]
fn settled_report_refuses_verify_and_reject() {
    let boss = identity(1);
    let other_boss = identity(4);
    let reporter = identity(2);
    let mut store = ledger_with_authority(&boss);
    assert_eq!(add_new_authority(&mut store, &boss, other_boss.clone()), Ok(()));
    let id = submit(&mut store, &reporter, 15, 1).unwrap();
    assert_eq!(reject_report(&mut store, &boss, id, None, 2), Ok(()));

    let account = get_user(&store, &reporter).unwrap();
    let report = whispr_backend::authority::store::get_report(&store, id).unwrap();
    let stats = get_authority_stats(&store);
    let thread = whispr_backend::authority::store::get_report_messages(&store, id);

    let refused = Err(LedgerError::InvalidState(ReportStatus::Rejected));
    assert_eq!(reject_report(&mut store, &boss, id, None, 3), refused);
    assert_eq!(verify_report(&mut store, &boss, id, None, 3), refused);
    assert_eq!(reject_report(&mut store, &other_boss, id, None, 3), refused);
    assert_eq!(verify_report(&mut store, &other_boss, id, None, 3), refused);

    assert_eq!(get_user(&store, &reporter).unwrap(), account);
    assert_eq!(whispr_backend::authority::store::get_report(&store, id).unwrap(), report);
    assert_eq!(get_authority_stats(&store), stats);
    assert_eq!(whispr_backend::authority::store::get_report_messages(&store, id), thread);
}

#[test]
fn settlement_is_for_authorities_only() {
    let boss = identity(1);
    let reporter = identity(2);
    let mut store = ledger_with_authority(&boss);
    let id = submit(&mut store, &reporter, 15, 1).unwrap();
    assert_eq!(verify_report(&mut store, &reporter, id, None, 2), Err(LedgerError::NotAuthority));
    assert_eq!(reject_report(&mut store, &reporter, id, None, 2), Err(LedgerError::NotAuthority));
    assert_eq!(
        verify_report(&mut store, &Identity::anonymous(), id, None, 2),
        Err(LedgerError::Unauthenticated)
    );
    assert_eq!(
        reject_report(&mut store, &Identity::anonymous(), id, None, 2),
        Err(LedgerError::Unauthenticated)
    );
    assert_eq!(get_user_balance(&store, &reporter), 85);
    assert_eq!(
        whispr_backend::authority::store::get_report(&store, id).unwrap().status,
        ReportStatus::Pending
    );
}

#[test]
fn settlement_of_unknown_report_is_not_found() {
    let boss = identity(1);
    let mut store = ledger_with_authority(&boss);
    assert_eq!(
        verify_report(&mut store, &boss, 1, None, 2),
        Err(LedgerError::NotFound(Missing::Report))
    );
    assert_eq!(
        reject_report(&mut store, &boss, 0, None, 2),
        Err(LedgerError::NotFound(Missing::Report))
    );
}

#[test]
fn settlement_without_submitter_account_is_not_found_and_changes_nothing() {
    let boss = identity(1);
    let ghost = identity(9);
    let mut store = ledger_with_authority(&boss);
    let orphan = whispr_backend::authority::types::Report {
        id: 0,
        title: "t".to_string(),
        description: "d".to_string(),
        category: "c".to_string(),
        date_submitted: 1,
        incident_date: None,
        location: None,
        submitter_id: ghost.clone(),
        evidence_count: 0,
        evidence_files: vec![],
        stake_amount: 10,
        reward_amount: 0,
        status: ReportStatus::Pending,
        reviewer: None,
        review_date: None,
        review_notes: None,
    };
    let id = whispr_backend::authority::store::create_report(&mut store, &orphan);
    assert_eq!(
        verify_report(&mut store, &boss, id, None, 2),
        Err(LedgerError::NotFound(Missing::Submitter))
    );
    assert_eq!(
        reject_report(&mut store, &boss, id, None, 2),
        Err(LedgerError::NotFound(Missing::Submitter))
    );
    let report = whispr_backend::authority::store::get_report(&store, id).unwrap();
    assert_eq!(report.status, ReportStatus::Pending);
    assert_eq!(report.reviewer, None);
    assert_eq!(get_authority_stats(&store).reports_pending, 1);
}

#[test]
fn strangers_see_neither_report_nor_thread() {
    let boss = identity(1);
    let reporter = identity(2);
    let stranger = identity(3);
    let mut store = ledger_with_authority(&boss);
    let id = submit(&mut store, &reporter, 15, 1).unwrap();

    assert!(get_report(&store, &stranger, id).is_empty());
    assert!(get_messages(&store, &stranger, id).is_empty());
    assert!(get_report(&store, &Identity::anonymous(), id).is_empty());
    assert!(get_messages(&store, &Identity::anonymous(), id).is_empty());

    assert_eq!(get_report(&store, &reporter, id).len(), 1);
    assert_eq!(get_report(&store, &reporter, id)[0].id, id);
    assert_eq!(get_messages(&store, &reporter, id).len(), 1);
    assert_eq!(get_report(&store, &boss, id).len(), 1);
    assert_eq!(get_messages(&store, &boss, id).len(), 1);

    assert!(get_report(&store, &reporter, id + 1).is_empty());
    assert!(get_messages(&store, &boss, id + 1).is_empty());
}

#[test]
fn listings_are_for_authorities() {
    let boss = identity(1);
    let reporter = identity(2);
    let mut store = ledger_with_authority(&boss);
    let a = submit(&mut store, &reporter, 10, 1).unwrap();
    let b = submit(&mut store, &identity(3), 10, 2).unwrap();
    let c = submit(&mut store, &reporter, 10, 3).unwrap();
    assert_eq!(reject_report(&mut store, &boss, b, None, 4), Ok(()));

    assert_eq!(get_all_reports(&store, &reporter), Err(LedgerError::NotAuthority));
    assert_eq!(
        get_all_reports(&store, &Identity::anonymous()),
        Err(LedgerError::Unauthenticated)
    );
    assert_eq!(
        get_reports_by_status(&store, &reporter, ReportStatus::Pending),
        Err(LedgerError::NotAuthority)
    );
    assert_eq!(get_authority_statistics(&store, &reporter), Err(LedgerError::NotAuthority));

    let all: Vec<u64> = get_all_reports(&store, &boss).unwrap().iter().map(|r| r.id).collect();
    assert_eq!(all, vec![a, b, c]);
    let pending: Vec<u64> = get_reports_by_status(&store, &boss, ReportStatus::Pending)
        .unwrap()
        .iter()
        .map(|r| r.id)
        .collect();
    assert_eq!(pending, vec![a, c]);
    let rejected: Vec<u64> = get_reports_by_status(&store, &boss, ReportStatus::Rejected)
        .unwrap()
        .iter()
        .map(|r| r.id)
        .collect();
    assert_eq!(rejected, vec![b]);
    assert!(get_reports_by_status(&store, &boss, ReportStatus::UnderReview).unwrap().is_empty());
    let stats = get_authority_statistics(&store, &boss).unwrap();
    assert_eq!(stats.reports_pending, 2);
    assert_eq!(stats.reports_rejected, 1);

    let own: Vec<u64> = get_user_reports(&store, &reporter).iter().map(|r| r.id).collect();
    assert_eq!(own, vec![a, c]);
    assert!(get_user_reports(&store, &boss).is_empty());
    assert!(get_user_reports(&store, &Identity::anonymous()).is_empty());
}

#[test]
fn balance_of_unknown_and_anonymous_is_zero() {
    let mut store = Store::new();
    assert_eq!(get_user_balance(&store, &identity(5)), 0);
    create_or_update_user(&mut store, User {
        id: Identity::anonymous(),
        token_balance: 12,
        reports_submitted: vec![],
        rewards_earned: 0,
        stakes_active: 0,
        stakes_lost: 0,
    });
    assert_eq!(get_user_balance(&store, &Identity::anonymous()), 0);
    create_or_update_user(&mut store, User {
        id: identity(5),
        token_balance: 12,
        reports_submitted: vec![],
        rewards_earned: 0,
        stakes_active: 0,
        stakes_lost: 0,
    });
    assert_eq!(get_user_balance(&store, &identity(5)), 12);
}

#[test]
fn registration_needs_an_authority_and_a_new_identity() {
    let boss = identity(1);
    let newcomer = identity(6);
    let mut store = ledger_with_authority(&boss);
    assert_eq!(
        add_new_authority(&mut store, &newcomer, newcomer.clone()),
        Err(LedgerError::NotAuthority)
    );
    assert_eq!(
        add_new_authority(&mut store, &Identity::anonymous(), newcomer.clone()),
        Err(LedgerError::Unauthenticated)
    );
    assert!(!whispr_backend::authority::store::is_authority(&store, &newcomer));
    assert_eq!(add_new_authority(&mut store, &boss, newcomer.clone()), Ok(()));
    assert!(whispr_backend::authority::store::is_authority(&store, &newcomer));
    assert_eq!(
        add_new_authority(&mut store, &boss, newcomer.clone()),
        Err(LedgerError::AlreadyAuthority)
    );
    assert_eq!(
        add_new_authority(&mut store, &newcomer, boss.clone()),
        Err(LedgerError::AlreadyAuthority)
    );
}
