use whispr_backend::authority::handlers::{
    authority_message_has_room, message_has_room, mock_data_has_room, post_has_room,
    reject_has_room, reject_report, reporter_message_has_room, reset_has_room, submit_has_room,
    submit_report, verify_has_room, verify_report,
};
use whispr_backend::authority::identity::Identity;
use whispr_backend::authority::mock::DAY_NS;
use whispr_backend::authority::store::{
    add_authority, create_or_update_user, evidence_count, get_user, message_count,
    transfer_has_room, transfer_tokens, update_authority_stats, update_reward_config, Store,
};
use whispr_backend::authority::types::{
    Authority, AuthorityStats, LedgerError, MessageSender, Missing, Operation, ReportStatus,
    RewardConfig, User,
};

fn party(byte: u8) -> Identity {
    Identity::from_bytes(vec![9, byte]).unwrap()
}

fn holder(id: &Identity, balance: u64, stakes_active: u64) -> User {
    User {
        id: id.clone(),
        token_balance: balance,
        reports_submitted: vec![],
        rewards_earned: 0,
        stakes_active,
        stakes_lost: 0,
    }
}

fn governed() -> (Store, Identity) {
    let boss = party(1);
    let mut store = Store::new();
    add_authority(
        &mut store,
        Authority { id: boss.clone(), reports_reviewed: vec![], approval_rate_bits: 0 },
    );
    (store, boss)
}

fn file(store: &mut Store, caller: &Identity, stake: u64) -> Result<u64, LedgerError> {
    submit_report(
        store,
        caller,
        "t".to_string(),
        "d".to_string(),
        "c".to_string(),
        None,
        None,
        stake,
        0,
        1,
    )
}

#[test]
fn submission_has_room_unless_the_escrow_would_overflow() {
    let (mut store, _boss) = governed();
    assert!(submit_has_room(&store, &party(2), 15));
    assert!(submit_has_room(&store, &party(2), 3));
    assert!(submit_has_room(&store, &party(2), 1_000));
    assert!(submit_has_room(&store, &Identity::anonymous(), 15));
    create_or_update_user(&mut store, holder(&party(2), 100, u64::MAX - 14));
    assert!(!submit_has_room(&store, &party(2), 15));
    assert!(submit_has_room(&store, &party(2), 14));
    assert!(submit_has_room(&store, &party(2), 101));
}

#[test]
fn submission_needs_room_in_the_pending_count() {
    let (mut store, _boss) = governed();
    update_authority_stats(&mut store, AuthorityStats {
        reports_pending: u64::MAX,
        reports_verified: 0,
        reports_rejected: 0,
        total_rewards_distributed: 0,
    });
    assert!(!submit_has_room(&store, &party(2), 15));
    assert!(submit_has_room(&store, &party(2), 4));
}

#[test]
fn verification_has_room_unless_a_sum_would_overflow() {
    let (mut store, boss) = governed();
    create_or_update_user(&mut store, holder(&party(2), u64::MAX, 0));
    let id = file(&mut store, &party(2), u64::MAX / 10).unwrap();
    assert!(!verify_has_room(&store, &boss, id));
    assert!(reject_has_room(&store, &boss, id));
    assert!(verify_has_room(&store, &party(2), id));
    assert!(verify_has_room(&store, &boss, id + 1));

    update_reward_config(&mut store, RewardConfig {
        reward_multiplier: 20,
        min_stake_amount: 5,
        max_stake_amount: 100,
    });
    assert!(!verify_has_room(&store, &boss, id));

    update_reward_config(&mut store, RewardConfig {
        reward_multiplier: 0,
        min_stake_amount: 5,
        max_stake_amount: 100,
    });
    assert!(verify_has_room(&store, &boss, id));
    assert_eq!(verify_report(&mut store, &boss, id, None, 2), Ok(()));
    assert_eq!(get_user(&store, &party(2)).unwrap().token_balance, u64::MAX);
    assert_eq!(get_user(&store, &party(2)).unwrap().rewards_earned, 0);
    assert!(verify_has_room(&store, &boss, id));
}

#[test]
fn settlement_needs_the_escrow_to_cover_the_stake() {
    let (mut store, boss) = governed();
    let id = file(&mut store, &party(2), 15).unwrap();
    assert!(verify_has_room(&store, &boss, id));
    assert!(reject_has_room(&store, &boss, id));
    create_or_update_user(&mut store, holder(&party(2), 85, 14));
    assert!(!verify_has_room(&store, &boss, id));
    assert!(!reject_has_room(&store, &boss, id));
    create_or_update_user(&mut store, holder(&party(2), 85, 15));
    update_authority_stats(&mut store, AuthorityStats {
        reports_pending: 0,
        reports_verified: 0,
        reports_rejected: 0,
        total_rewards_distributed: 0,
    });
    assert!(!verify_has_room(&store, &boss, id));
    assert!(!reject_has_room(&store, &boss, id));
    update_authority_stats(&mut store, AuthorityStats {
        reports_pending: 1,
        reports_verified: u64::MAX,
        reports_rejected: u64::MAX,
        total_rewards_distributed: 0,
    });
    assert!(!verify_has_room(&store, &boss, id));
    assert!(!reject_has_room(&store, &boss, id));
    update_authority_stats(&mut store, AuthorityStats {
        reports_pending: 1,
        reports_verified: u64::MAX - 1,
        reports_rejected: u64::MAX - 1,
        total_rewards_distributed: u64::MAX - 150,
    });
    assert!(verify_has_room(&store, &boss, id));
    assert!(reject_has_room(&store, &boss, id));
    assert_eq!(reject_report(&mut store, &boss, id, None, 2), Ok(()));
}

#[test]
fn transfer_has_room_unless_the_receiver_would_overflow() {
    let mut store = Store::new();
    create_or_update_user(&mut store, holder(&party(1), 50, 0));
    create_or_update_user(&mut store, holder(&party(2), u64::MAX - 10, 0));
    assert!(transfer_has_room(&store, &party(1), &party(2), 10));
    assert!(!transfer_has_room(&store, &party(1), &party(2), 11));
    assert!(transfer_has_room(&store, &party(1), &party(2), 51));
    assert!(transfer_has_room(&store, &party(3), &party(2), 11));
    assert!(transfer_has_room(&store, &party(1), &party(3), 50));
    assert_eq!(transfer_tokens(&mut store, &party(1), &party(2), 10), Ok(()));
    assert_eq!(get_user(&store, &party(2)).unwrap().token_balance, u64::MAX);
}

#[test]
fn seed_data_need_a_late_enough_clock() {
    let store = Store::new();
    assert!(mock_data_has_room(&store, 34 * DAY_NS));
    assert!(!mock_data_has_room(&store, 34 * DAY_NS - 1));
    assert!(!mock_data_has_room(&store, 0));
    let (mut store, _boss) = governed();
    file(&mut store, &party(2), 15).unwrap();
    assert!(mock_data_has_room(&store, 0));
}

#[test]
fn counts_follow_the_tables() {
    let (mut store, _boss) = governed();
    assert_eq!(message_count(&store), 0);
    assert_eq!(evidence_count(&store), 0);
    assert!(message_has_room(&store));
    file(&mut store, &party(2), 15).unwrap();
    file(&mut store, &party(2), 15).unwrap();
    assert_eq!(message_count(&store), 2);
}

#[test]
fn errors_say_what_went_wrong() {
    assert_eq!(LedgerError::Unauthenticated.message(), "Anonymous callers are not allowed");
    assert_eq!(LedgerError::NotAuthority.message(), "Caller is not an authorized authority");
    assert_eq!(LedgerError::NotFound(Missing::Report).message(), "Report not found");
    assert_eq!(
        LedgerError::NotFound(Missing::Submitter).message(),
        "Report submitter not found"
    );
    assert_eq!(LedgerError::NotFound(Missing::SourceUser).message(), "Source user not found");
    assert_eq!(
        LedgerError::InvalidState(ReportStatus::Approved).message(),
        "Report is already in Approved state"
    );
    assert_eq!(
        LedgerError::InvalidState(ReportStatus::Rejected).message(),
        "Report is already in Rejected state"
    );
    assert_eq!(
        LedgerError::InvalidState(ReportStatus::UnderReview).message(),
        "Report is already in UnderReview state"
    );
    assert_eq!(LedgerError::InvalidStake.message(), "Stake amount is below the minimum");
    assert_eq!(LedgerError::InsufficientBalance.message(), "Insufficient token balance");
    assert_eq!(
        LedgerError::Forbidden.message(),
        "You can only send messages for your own reports"
    );
    assert_eq!(LedgerError::AlreadyAuthority.message(), "Principal is already an authority");
    assert_eq!(ReportStatus::Pending.name(), "Pending");
    assert_eq!(format!("{:?}", ReportStatus::UnderReview), ReportStatus::UnderReview.name());
}

#[test]
fn refusals_of_a_submission_have_words_of_their_own() {
    let filing = Operation::Submit { minimum_stake: 5 };
    assert_eq!(
        LedgerError::Unauthenticated.message_in(filing),
        "Anonymous callers cannot submit reports"
    );
    assert_eq!(LedgerError::InvalidStake.message_in(filing), "Minimum stake amount is 5 tokens");
    assert_eq!(
        LedgerError::InvalidStake.message_in(Operation::Submit { minimum_stake: 120 }),
        "Minimum stake amount is 120 tokens"
    );
    assert_eq!(
        LedgerError::InsufficientBalance.message_in(filing),
        "Insufficient token balance for staking"
    );
    assert_eq!(LedgerError::Forbidden.message_in(filing), LedgerError::Forbidden.message());
}

#[test]
fn refusals_of_a_reporters_message_have_words_of_their_own() {
    let writing = Operation::ReporterMessage;
    assert_eq!(
        LedgerError::Unauthenticated.message_in(writing),
        "Anonymous callers cannot send messages"
    );
    assert_eq!(LedgerError::NotFound(Missing::Report).message_in(writing), "Report not found");
    assert_eq!(
        LedgerError::Forbidden.message_in(writing),
        "You can only send messages for your own reports"
    );
    assert_eq!(
        LedgerError::InsufficientBalance.message_in(writing),
        "Insufficient token balance"
    );
}

#[test]
fn other_operations_word_their_refusals_alike() {
    for error in [
        LedgerError::Unauthenticated,
        LedgerError::NotAuthority,
        LedgerError::NotFound(Missing::Report),
        LedgerError::NotFound(Missing::Submitter),
        LedgerError::NotFound(Missing::SourceUser),
        LedgerError::InvalidState(ReportStatus::Approved),
        LedgerError::InvalidStake,
        LedgerError::InsufficientBalance,
        LedgerError::Forbidden,
        LedgerError::AlreadyAuthority,
    ] {
        assert_eq!(error.message_in(Operation::Other), error.message());
    }
    assert_eq!(
        LedgerError::InsufficientBalance.message_in(Operation::Other),
        "Insufficient token balance"
    );
}

#[test]
fn a_message_needs_room_only_where_it_would_be_posted() {
    let (mut store, boss) = governed();
    let id = file(&mut store, &party(2), 15).unwrap();
    assert!(authority_message_has_room(&store, &boss, id));
    assert!(authority_message_has_room(&store, &party(2), id));
    assert!(authority_message_has_room(&store, &boss, id + 1));
    assert!(reporter_message_has_room(&store, &party(2), id));
    assert!(reporter_message_has_room(&store, &party(3), id));
    assert!(reporter_message_has_room(&store, &Identity::anonymous(), id));
    assert!(reporter_message_has_room(&store, &party(2), id + 1));
    assert!(post_has_room(&store, id, &MessageSender::System));
    assert!(post_has_room(&store, id, &MessageSender::Reporter(party(3))));
    assert!(post_has_room(&store, id + 1, &MessageSender::Authority(boss.clone())));
}

#[test]
fn a_reset_needs_room_only_from_an_authority_on_an_empty_ledger() {
    let (store, boss) = governed();
    assert!(!reset_has_room(&store, &boss, 0));
    assert!(reset_has_room(&store, &boss, 34 * DAY_NS));
    assert!(reset_has_room(&store, &party(2), 0));
    assert!(reset_has_room(&store, &Identity::anonymous(), 0));
    let (mut store, boss) = governed();
    file(&mut store, &party(2), 15).unwrap();
    assert!(reset_has_room(&store, &boss, 0));
}
