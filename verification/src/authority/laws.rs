//! What holds of the lifecycle operations, stated over the model of the
//! store and proved from the definitions of the operations.

use crate::authority::handlers::{
    after_reject, after_submit, after_verify, authority_refusal, reject_fits, reward_of,
    settle_refusal, submit_account, submit_fits, submit_refusal, system_notice, verify_fits,
    visible_report, visible_thread, SubmissionView,
};
use crate::authority::identity::anonymous_bytes;
use crate::authority::store::{
    after_transfer, in_thread, lemma_filter_push, lemma_transfer_to_oneself, receiving_account,
    thread_of, transfer_fits, transfer_outcome, StoreView,
};
use crate::authority::text::submitted_notice;
use crate::authority::types::{LedgerError, MessageView, ReportStatus};
use vstd::prelude::*;

verus! {

/// An accepted submission takes exactly the stake from the caller's balance
/// and adds exactly the stake to the caller's escrow; the report it creates
/// is pending, carries the stake and belongs to the caller; and the thread
/// of the report ends with the notice of the system.
pub proof fn submission_moves_stake_into_escrow(
    s: StoreView,
    caller: Seq<u8>,
    submission: SubmissionView,
    stake: u64,
    now: u64,
)
    requires
        s.well_formed(),
        caller != anonymous_bytes(),
        stake >= s.config.min_stake_amount,
        submit_account(s, caller).token_balance >= stake,
        submit_fits(s, caller, stake),
    ensures
        submit_refusal(s, caller, stake).is_none(),
        after_submit(s, caller, submission, stake, now).well_formed(),
        ({
            let t = after_submit(s, caller, submission, stake, now);
            let id = s.next_report_id() as u64;
            &&& t.users.contains_key(caller)
            &&& t.users[caller].token_balance == submit_account(s, caller).token_balance - stake
            &&& t.users[caller].stakes_active == submit_account(s, caller).stakes_active + stake
            &&& t.users[caller].reports_submitted.last() == id
            &&& t.reports.len() == s.reports.len() + 1
            &&& t.report(id).is_some()
            &&& t.report(id).unwrap().status == ReportStatus::Pending
            &&& t.report(id).unwrap().stake_amount == stake
            &&& t.report(id).unwrap().submitter_id == caller
            &&& t.stats.reports_pending == s.stats.reports_pending + 1
            &&& thread_of(t.messages, id).len() > 0
            &&& thread_of(t.messages, id).last() == (MessageView {
                id: s.next_message_id() as u64,
                ..system_notice(id, submitted_notice(stake), now)
            })
        }),
{
    let t = after_submit(s, caller, submission, stake, now);
    let id = s.next_report_id() as u64;
    let notice = MessageView {
        id: s.next_message_id() as u64,
        ..system_notice(id, submitted_notice(stake), now)
    };
    assert(t.messages == s.messages.push(notice));
    lemma_filter_push(s.messages, in_thread(id), notice);
}

/// A verification pays the submitter the stake and the reward, which is the
/// stake times the multiplier; the escrow gives the stake back; the rewards
/// earned grow by the reward; the report is approved; and the statistics
/// move one report from pending to verified, so that the three counts keep
/// their sum.
pub proof fn verification_pays_stake_and_reward(
    s: StoreView,
    caller: Seq<u8>,
    report_id: u64,
    notes: Option<Seq<char>>,
    now: u64,
)
    requires
        s.well_formed(),
        settle_refusal(s, caller, report_id).is_none(),
        verify_fits(s, report_id),
    ensures
        after_verify(s, caller, report_id, notes, now).well_formed(),
        ({
            let t = after_verify(s, caller, report_id, notes, now);
            let report = s.report(report_id).unwrap();
            let before = s.users[report.submitter_id];
            let after = t.users[report.submitter_id];
            let reward = report.stake_amount * s.config.reward_multiplier;
            &&& report.status == ReportStatus::Pending
            &&& t.users.contains_key(report.submitter_id)
            &&& after.token_balance == before.token_balance + report.stake_amount + reward
            &&& after.stakes_active == before.stakes_active - report.stake_amount
            &&& after.rewards_earned == before.rewards_earned + reward
            &&& after.stakes_lost == before.stakes_lost
            &&& t.report(report_id).is_some()
            &&& t.report(report_id).unwrap().status == ReportStatus::Approved
            &&& t.report(report_id).unwrap().reward_amount == reward
            &&& t.report(report_id).unwrap().reviewer == Some(caller)
            &&& t.report(report_id).unwrap().review_date == Some(now)
            &&& t.stats.reports_pending == s.stats.reports_pending - 1
            &&& t.stats.reports_verified == s.stats.reports_verified + 1
            &&& t.stats.reports_rejected == s.stats.reports_rejected
            &&& t.stats.reports_pending + t.stats.reports_verified + t.stats.reports_rejected
                == s.stats.reports_pending + s.stats.reports_verified + s.stats.reports_rejected
            &&& t.stats.total_rewards_distributed == s.stats.total_rewards_distributed + reward
        }),
{
    let report = s.report(report_id).unwrap();
    assert(reward_of(s, report) == report.stake_amount * s.config.reward_multiplier);
}

/// A rejection leaves the submitter's balance as it is; the stake leaves
/// the escrow and is counted as lost; the report is rejected and its reward
/// stays 0; and the statistics move one report from pending to rejected.
pub proof fn rejection_forfeits_stake(
    s: StoreView,
    caller: Seq<u8>,
    report_id: u64,
    notes: Option<Seq<char>>,
    now: u64,
)
    requires
        s.well_formed(),
        settle_refusal(s, caller, report_id).is_none(),
        reject_fits(s, report_id),
    ensures
        after_reject(s, caller, report_id, notes, now).well_formed(),
        ({
            let t = after_reject(s, caller, report_id, notes, now);
            let report = s.report(report_id).unwrap();
            let before = s.users[report.submitter_id];
            let after = t.users[report.submitter_id];
            &&& report.status == ReportStatus::Pending
            &&& t.users.contains_key(report.submitter_id)
            &&& after.token_balance == before.token_balance
            &&& after.stakes_active == before.stakes_active - report.stake_amount
            &&& after.stakes_lost == before.stakes_lost + report.stake_amount
            &&& after.rewards_earned == before.rewards_earned
            &&& t.report(report_id).is_some()
            &&& t.report(report_id).unwrap().status == ReportStatus::Rejected
            &&& t.report(report_id).unwrap().reward_amount == report.reward_amount
            &&& t.report(report_id).unwrap().reviewer == Some(caller)
            &&& t.report(report_id).unwrap().review_date == Some(now)
            &&& t.stats.reports_pending == s.stats.reports_pending - 1
            &&& t.stats.reports_rejected == s.stats.reports_rejected + 1
            &&& t.stats.reports_verified == s.stats.reports_verified
            &&& t.stats.total_rewards_distributed == s.stats.total_rewards_distributed
        }),
{
}

/// A report that has been settled refuses every further settlement: for any
/// authority, verify and reject alike are turned down with `InvalidState`
/// and the status the report is in. (The operations leave a store unchanged
/// whenever they are turned down.)
pub proof fn settled_report_refuses_settlement(s: StoreView, caller: Seq<u8>, report_id: u64)
    requires
        s.report(report_id).is_some(),
        s.report(report_id).unwrap().status.is_terminal(),
        authority_refusal(s, caller).is_none(),
    ensures
        settle_refusal(s, caller, report_id) == Some(
            LedgerError::InvalidState(s.report(report_id).unwrap().status),
        ),
{
}

/// After a verification, every authority's attempt to settle the same
/// report again is turned down with `InvalidState(Approved)`.
pub proof fn second_settlement_after_verify_is_refused(
    s: StoreView,
    caller: Seq<u8>,
    report_id: u64,
    notes: Option<Seq<char>>,
    now: u64,
    again: Seq<u8>,
)
    requires
        s.well_formed(),
        settle_refusal(s, caller, report_id).is_none(),
        verify_fits(s, report_id),
        authority_refusal(after_verify(s, caller, report_id, notes, now), again).is_none(),
    ensures
        settle_refusal(after_verify(s, caller, report_id, notes, now), again, report_id) == Some(
            LedgerError::InvalidState(ReportStatus::Approved),
        ),
{
}

/// After a rejection, every authority's attempt to settle the same report
/// again is turned down with `InvalidState(Rejected)`.
pub proof fn second_settlement_after_reject_is_refused(
    s: StoreView,
    caller: Seq<u8>,
    report_id: u64,
    notes: Option<Seq<char>>,
    now: u64,
    again: Seq<u8>,
)
    requires
        s.well_formed(),
        settle_refusal(s, caller, report_id).is_none(),
        reject_fits(s, report_id),
        authority_refusal(after_reject(s, caller, report_id, notes, now), again).is_none(),
    ensures
        settle_refusal(after_reject(s, caller, report_id, notes, now), again, report_id) == Some(
            LedgerError::InvalidState(ReportStatus::Rejected),
        ),
{
}

/// Settling a report does not change who is an authority.
pub proof fn settlement_keeps_the_registry(
    s: StoreView,
    caller: Seq<u8>,
    report_id: u64,
    notes: Option<Seq<char>>,
    now: u64,
)
    ensures
        after_verify(s, caller, report_id, notes, now).authorities == s.authorities,
        after_reject(s, caller, report_id, notes, now).authorities == s.authorities,
{
}

/// Someone who is neither the submitter of a report nor an authority is
/// shown neither the report nor its thread.
pub proof fn strangers_see_nothing(s: StoreView, viewer: Seq<u8>, report_id: u64)
    requires
        !s.authorities.contains_key(viewer),
        s.report(report_id) matches Some(report) ==> report.submitter_id != viewer,
    ensures
        visible_report(s, viewer, report_id).len() == 0,
        visible_thread(s, viewer, report_id).len() == 0,
{
}

/// The submitter of a report and every authority are shown the report and
/// all of its thread.
pub proof fn parties_see_everything(s: StoreView, viewer: Seq<u8>, report_id: u64)
    requires
        s.report(report_id).is_some(),
        s.authorities.contains_key(viewer) || s.report(report_id).unwrap().submitter_id
            == viewer,
    ensures
        visible_report(s, viewer, report_id) == seq![s.report(report_id).unwrap()],
        visible_thread(s, viewer, report_id) == thread_of(s.messages, report_id),
{
}

/// A transfer between two accounts takes the amount from the one and gives
/// it to the other, which is created where it does not exist; the two
/// balances keep their sum, and their other holdings and all other accounts
/// stay as they are.
pub proof fn transfer_moves_the_amount(s: StoreView, from: Seq<u8>, to: Seq<u8>, amount: u64)
    requires
        s.well_formed(),
        from != to,
        transfer_outcome(s, from, amount).is_ok(),
        transfer_fits(s, from, to, amount),
    ensures
        after_transfer(s, from, to, amount).well_formed(),
        ({
            let t = after_transfer(s, from, to, amount);
            &&& t.users.contains_key(from)
            &&& t.users.contains_key(to)
            &&& t.users[from].token_balance == s.users[from].token_balance - amount
            &&& t.users[to].token_balance == receiving_account(s, to).token_balance + amount
            &&& t.users[from].token_balance + t.users[to].token_balance
                == s.users[from].token_balance + receiving_account(s, to).token_balance
            &&& t.users[from].stakes_active == s.users[from].stakes_active
            &&& t.users[to].stakes_active == receiving_account(s, to).stakes_active
            &&& forall|k: Seq<u8>|
                k != from && k != to ==> t.users.contains_key(k) == s.users.contains_key(k)
                    && t.users[k] == s.users[k]
            &&& t.reports == s.reports
            &&& t.stats == s.stats
        }),
{
}

/// A transfer never creates tokens: one to oneself that goes through always
/// fits and leaves every account, and all the rest, as it was.
pub proof fn transfer_to_oneself_changes_nothing(s: StoreView, who: Seq<u8>, amount: u64)
    requires
        s.well_formed(),
        transfer_outcome(s, who, amount).is_ok(),
    ensures
        transfer_fits(s, who, who, amount),
        after_transfer(s, who, who, amount) == s,
{
    lemma_transfer_to_oneself(s, who, amount);
}

} // verus!
