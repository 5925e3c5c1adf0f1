//! The operations that callers reach: the authorization guard, the report
//! lifecycle, the message threads and the read-outs.
//!
//! Every operation takes the store, the identity of the caller as the
//! transport authenticated it, and where it records a time, the current
//! time. An operation first validates, then applies: where it is refused,
//! the store is as it was.

use crate::authority::identity::{anonymous_bytes, Identity};
use crate::authority::invariants::{
    consistent, message_keeps_consistency, registration_keeps_consistency,
    rejection_keeps_consistency, submission_keeps_consistency, verification_keeps_consistency,
};
use crate::authority::mock::{initialize_mock_data, mock_data_fits, with_mock_data, DAY_NS};
use crate::authority::store::{
    add_authority, create_message, create_or_update_user, create_report, get_authority_stats,
    get_report_messages, get_reward_config, get_user, is_authority, message_count, message_views,
    report_count, report_views, status_change_fits, thread_of, update_authority_stats,
    update_report, Store, StoreView,
};
use crate::authority::text::{
    rejected_notice, rejected_text, submitted_notice, submitted_text, verified_notice,
    verified_text,
};
use crate::authority::types::{
    bytes_view, fresh_authority, fresh_user, location_view, text_view, Authority, AuthorityStats,
    LedgerError, Location, LocationView, Message, MessageSender, MessageSenderView, MessageView,
    Missing, Report, ReportStatus, ReportView, User, UserView,
};
use vstd::prelude::*;

verus! {

/// What a user holds on first contact.
pub const STARTING_BALANCE: u64 = 100;

/// Why the guard turns a caller away from an authority-only operation, if
/// it does.
pub open spec fn authority_refusal(s: StoreView, caller: Seq<u8>) -> Option<LedgerError> {
    if caller == anonymous_bytes() {
        Some(LedgerError::Unauthenticated)
    } else if !s.authorities.contains_key(caller) {
        Some(LedgerError::NotAuthority)
    } else {
        None
    }
}

/// The guard of the authority-only operations: the caller's identity where
/// it is a recognized authority, `Unauthenticated` for the anonymous
/// identity, `NotAuthority` for anyone else.
pub fn ensure_authority(store: &Store, caller: &Identity) -> (r: Result<Identity, LedgerError>)
    requires
        store.wf(),
    ensures
        match r {
            Ok(id) => authority_refusal(store@, caller@).is_none() && id@ == caller@,
            Err(e) => authority_refusal(store@, caller@) == Some(e),
        },
{
    if caller.is_anonymous() {
        return Err(LedgerError::Unauthenticated);
    }
    if !is_authority(store, caller) {
        return Err(LedgerError::NotAuthority);
    }
    Ok(caller.clone())
}

/// The account that a submission draws on: the one on record, or that of a
/// first contact.
pub open spec fn submit_account(s: StoreView, caller: Seq<u8>) -> UserView {
    match s.user(caller) {
        Some(account) => account,
        None => fresh_user(caller, STARTING_BALANCE),
    }
}

/// Why a submission is refused, if it is.
pub open spec fn submit_refusal(s: StoreView, caller: Seq<u8>, stake: u64) -> Option<
    LedgerError,
> {
    if caller == anonymous_bytes() {
        Some(LedgerError::Unauthenticated)
    } else if stake < s.config.min_stake_amount {
        Some(LedgerError::InvalidStake)
    } else if submit_account(s, caller).token_balance < stake {
        Some(LedgerError::InsufficientBalance)
    } else {
        None
    }
}

/// Whether the counters of an accepted submission stay within `u64`.
pub open spec fn submit_fits(s: StoreView, caller: Seq<u8>, stake: u64) -> bool {
    &&& s.next_report_id() <= u64::MAX
    &&& s.next_message_id() <= u64::MAX
    &&& s.stats.reports_pending < u64::MAX
    &&& submit_account(s, caller).stakes_active + stake <= u64::MAX
}

/// What a caller hands in with a report.
pub struct SubmissionView {
    pub title: Seq<char>,
    pub description: Seq<char>,
    pub category: Seq<char>,
    pub location: Option<LocationView>,
    pub incident_date: Option<Seq<char>>,
    pub evidence_count: u32,
}

/// The report that a submission becomes: pending, unsettled, without
/// reward. Its id is assigned by the store.
pub open spec fn pending_report(
    caller: Seq<u8>,
    submission: SubmissionView,
    stake: u64,
    now: u64,
) -> ReportView {
    ReportView {
        id: 0,
        title: submission.title,
        description: submission.description,
        category: submission.category,
        date_submitted: now,
        incident_date: submission.incident_date,
        location: submission.location,
        submitter_id: caller,
        evidence_count: submission.evidence_count,
        evidence_files: Seq::empty(),
        stake_amount: stake,
        reward_amount: 0,
        status: ReportStatus::Pending,
        reviewer: None,
        review_date: None,
        review_notes: None,
    }
}

/// A notice of the system in the thread of a report.
pub open spec fn system_notice(report_id: u64, content: Seq<char>, now: u64) -> MessageView {
    MessageView {
        id: 0,
        report_id,
        sender: MessageSenderView::System,
        content,
        timestamp: now,
        attachment: None,
    }
}

/// The store after an accepted submission: the report is on record as
/// pending, the stake has moved from the caller's balance into escrow, the
/// report is on the caller's list and its thread opens with a notice.
pub open spec fn after_submit(
    s: StoreView,
    caller: Seq<u8>,
    submission: SubmissionView,
    stake: u64,
    now: u64,
) -> StoreView {
    let id = s.next_report_id() as u64;
    let account = submit_account(s, caller);
    s.with_new_report(pending_report(caller, submission, stake, now)).with_user(
        UserView {
            token_balance: (account.token_balance - stake) as u64,
            stakes_active: (account.stakes_active + stake) as u64,
            reports_submitted: account.reports_submitted.push(id),
            ..account
        },
    ).with_new_message(system_notice(id, submitted_notice(stake), now))
}

/// Files a report and puts the caller's stake in escrow. Returns the id of
/// the new report. Refused with `Unauthenticated` for the anonymous
/// identity, `InvalidStake` below the minimum stake, `InsufficientBalance`
/// where the caller's balance does not cover the stake.
pub fn submit_report(
    store: &mut Store,
    caller: &Identity,
    title: String,
    description: String,
    category: String,
    location: Option<Location>,
    incident_date: Option<String>,
    stake_amount: u64,
    evidence_count: u32,
    now: u64,
) -> (result: Result<u64, LedgerError>)
    requires
        old(store).wf(),
        submit_refusal(old(store)@, caller@, stake_amount).is_none() ==> submit_fits(
            old(store)@,
            caller@,
            stake_amount,
        ),
    ensures
        final(store).wf(),
        match result {
            Ok(id) => {
                &&& submit_refusal(old(store)@, caller@, stake_amount).is_none()
                &&& id == old(store)@.next_report_id()
                &&& final(store)@ == after_submit(
                    old(store)@,
                    caller@,
                    (SubmissionView {
                        title: title@,
                        description: description@,
                        category: category@,
                        location: location_view(location),
                        incident_date: text_view(incident_date),
                        evidence_count,
                    }),
                    stake_amount,
                    now,
                )
            },
            Err(e) => {
                &&& submit_refusal(old(store)@, caller@, stake_amount) == Some(e)
                &&& final(store)@ == old(store)@
            },
        },
        consistent(old(store)@) ==> consistent(final(store)@),
{
    let ghost submission = SubmissionView {
        title: title@,
        description: description@,
        category: category@,
        location: location_view(location),
        incident_date: text_view(incident_date),
        evidence_count,
    };
    if caller.is_anonymous() {
        return Err(LedgerError::Unauthenticated);
    }
    let config = get_reward_config(store);
    if stake_amount < config.min_stake_amount {
        return Err(LedgerError::InvalidStake);
    }
    let user = match get_user(store, caller) {
        Some(user) => user,
        None => User::with_balance(caller.clone(), STARTING_BALANCE),
    };
    if user.token_balance < stake_amount {
        return Err(LedgerError::InsufficientBalance);
    }
    let report = Report {
        id: 0,
        title,
        description,
        category,
        date_submitted: now,
        incident_date,
        location,
        submitter_id: caller.clone(),
        evidence_count,
        evidence_files: Vec::new(),
        stake_amount,
        reward_amount: 0,
        status: ReportStatus::Pending,
        reviewer: None,
        review_date: None,
        review_notes: None,
    };
    let report_id = create_report(store, &report);
    let mut updated_user = user;
    updated_user.token_balance = updated_user.token_balance - stake_amount;
    updated_user.stakes_active = updated_user.stakes_active + stake_amount;
    updated_user.reports_submitted.push(report_id);
    create_or_update_user(store, updated_user);
    let notice = Message {
        id: 0,
        report_id,
        sender: MessageSender::System,
        content: submitted_text(stake_amount),
        timestamp: now,
        attachment: None,
    };
    create_message(store, &notice);
    proof {
        if consistent(old(store)@) {
            submission_keeps_consistency(old(store)@, caller@, submission, stake_amount, now);
        }
    }
    Ok(report_id)
}

/// Why a settlement (verify or reject) is refused, if it is: the guard's
/// reasons first, then `NotFound` for an unknown report, `InvalidState` with
/// its status for a report that is not pending, `NotFound` where the
/// submitter has no account.
pub open spec fn settle_refusal(s: StoreView, caller: Seq<u8>, report_id: u64) -> Option<
    LedgerError,
> {
    if authority_refusal(s, caller).is_some() {
        authority_refusal(s, caller)
    } else {
        match s.report(report_id) {
            None => Some(LedgerError::NotFound(Missing::Report)),
            Some(report) => if report.status != ReportStatus::Pending {
                Some(LedgerError::InvalidState(report.status))
            } else if s.user(report.submitter_id).is_none() {
                Some(LedgerError::NotFound(Missing::Submitter))
            } else {
                None
            },
        }
    }
}

/// The reward that a verified report earns: the stake times the multiplier
/// of the policy.
pub open spec fn reward_of(s: StoreView, report: ReportView) -> int {
    report.stake_amount * s.config.reward_multiplier
}

/// Whether the sums of a verification stay within `u64`, and the escrow and
/// the pending count cover what leaves them.
pub open spec fn verify_fits(s: StoreView, report_id: u64) -> bool {
    let report = s.reports[report_id - 1];
    let submitter = s.users[report.submitter_id];
    let reward = reward_of(s, report);
    &&& reward <= u64::MAX
    &&& submitter.token_balance + report.stake_amount + reward <= u64::MAX
    &&& submitter.stakes_active >= report.stake_amount
    &&& submitter.rewards_earned + reward <= u64::MAX
    &&& status_change_fits(s.stats, ReportStatus::Pending, ReportStatus::Approved)
    &&& s.stats.total_rewards_distributed + reward <= u64::MAX
    &&& s.next_message_id() <= u64::MAX
}

/// The store after a verification: the report is approved and carries the
/// authority, the time, the notes and the reward; the submitter gets stake
/// and reward, the escrow gives the stake back; the statistics move one
/// report from pending to verified and add the reward; the thread gets a
/// notice.
pub open spec fn after_verify(
    s: StoreView,
    caller: Seq<u8>,
    report_id: u64,
    notes: Option<Seq<char>>,
    now: u64,
) -> StoreView {
    let report = s.reports[report_id - 1];
    let submitter = s.users[report.submitter_id];
    let reward = reward_of(s, report) as u64;
    let settled = s.with_report(
        ReportView {
            status: ReportStatus::Approved,
            reviewer: Some(caller),
            review_date: Some(now),
            review_notes: notes,
            reward_amount: reward,
            ..report
        },
    ).with_user(
        UserView {
            token_balance: (submitter.token_balance + report.stake_amount + reward) as u64,
            stakes_active: (submitter.stakes_active - report.stake_amount) as u64,
            rewards_earned: (submitter.rewards_earned + reward) as u64,
            ..submitter
        },
    ).with_new_message(system_notice(report_id, verified_notice(reward), now));
    settled.with_stats(
        AuthorityStats {
            total_rewards_distributed: (settled.stats.total_rewards_distributed + reward) as u64,
            ..settled.stats
        },
    )
}

/// Approves a pending report: releases the stake and pays the reward.
/// Refused as `settle_refusal` says.
pub fn verify_report(
    store: &mut Store,
    caller: &Identity,
    report_id: u64,
    notes: Option<String>,
    now: u64,
) -> (result: Result<(), LedgerError>)
    requires
        old(store).wf(),
        settle_refusal(old(store)@, caller@, report_id).is_none() ==> verify_fits(
            old(store)@,
            report_id,
        ),
    ensures
        final(store).wf(),
        match result {
            Ok(_) => {
                &&& settle_refusal(old(store)@, caller@, report_id).is_none()
                &&& final(store)@ == after_verify(
                    old(store)@,
                    caller@,
                    report_id,
                    text_view(notes),
                    now,
                )
            },
            Err(e) => {
                &&& settle_refusal(old(store)@, caller@, report_id) == Some(e)
                &&& final(store)@ == old(store)@
            },
        },
        consistent(old(store)@) ==> consistent(final(store)@),
{
    let ghost remarks = text_view(notes);
    let authority = match ensure_authority(store, caller) {
        Ok(authority) => authority,
        Err(e) => {
            return Err(e);
        },
    };
    let report = match crate::authority::store::get_report(store, report_id) {
        Some(report) => report,
        None => {
            return Err(LedgerError::NotFound(Missing::Report));
        },
    };
    if report.status != ReportStatus::Pending {
        return Err(LedgerError::InvalidState(report.status));
    }
    let submitter = match get_user(store, &report.submitter_id) {
        Some(user) => user,
        None => {
            return Err(LedgerError::NotFound(Missing::Submitter));
        },
    };
    let config = get_reward_config(store);
    let stake_amount = report.stake_amount;
    let reward_amount = stake_amount * config.reward_multiplier;
    let mut updated_report = report;
    updated_report.status = ReportStatus::Approved;
    updated_report.reviewer = Some(authority);
    updated_report.review_date = Some(now);
    updated_report.review_notes = notes;
    updated_report.reward_amount = reward_amount;
    match update_report(store, updated_report) {
        Ok(_) => {},
        Err(e) => {
            return Err(e);
        },
    }
    let mut updated_submitter = submitter;
    updated_submitter.token_balance = updated_submitter.token_balance + stake_amount
        + reward_amount;
    updated_submitter.stakes_active = updated_submitter.stakes_active - stake_amount;
    updated_submitter.rewards_earned = updated_submitter.rewards_earned + reward_amount;
    create_or_update_user(store, updated_submitter);
    let notice = Message {
        id: 0,
        report_id,
        sender: MessageSender::System,
        content: verified_text(reward_amount),
        timestamp: now,
        attachment: None,
    };
    create_message(store, &notice);
    let stats = get_authority_stats(store);
    update_authority_stats(store, stats.on_reward_paid(reward_amount));
    proof {
        if consistent(old(store)@) {
            verification_keeps_consistency(old(store)@, caller@, report_id, remarks, now);
        }
    }
    Ok(())
}

/// Whether the sums of a rejection stay within `u64`, and the escrow and
/// the pending count cover what leaves them.
pub open spec fn reject_fits(s: StoreView, report_id: u64) -> bool {
    let report = s.reports[report_id - 1];
    let submitter = s.users[report.submitter_id];
    &&& submitter.stakes_active >= report.stake_amount
    &&& submitter.stakes_lost + report.stake_amount <= u64::MAX
    &&& status_change_fits(s.stats, ReportStatus::Pending, ReportStatus::Rejected)
    &&& s.next_message_id() <= u64::MAX
}

/// The store after a rejection: the report is rejected and carries the
/// authority, the time and the notes, its reward stays 0; the stake leaves
/// the escrow and is lost, the balance stays as it is; the statistics move
/// one report from pending to rejected; the thread gets a notice.
pub open spec fn after_reject(
    s: StoreView,
    caller: Seq<u8>,
    report_id: u64,
    notes: Option<Seq<char>>,
    now: u64,
) -> StoreView {
    let report = s.reports[report_id - 1];
    let submitter = s.users[report.submitter_id];
    s.with_report(
        ReportView {
            status: ReportStatus::Rejected,
            reviewer: Some(caller),
            review_date: Some(now),
            review_notes: notes,
            ..report
        },
    ).with_user(
        UserView {
            stakes_active: (submitter.stakes_active - report.stake_amount) as u64,
            stakes_lost: (submitter.stakes_lost + report.stake_amount) as u64,
            ..submitter
        },
    ).with_new_message(system_notice(report_id, rejected_notice(report.stake_amount), now))
}

/// Rejects a pending report: the stake is forfeited. Refused as
/// `settle_refusal` says.
pub fn reject_report(
    store: &mut Store,
    caller: &Identity,
    report_id: u64,
    notes: Option<String>,
    now: u64,
) -> (result: Result<(), LedgerError>)
    requires
        old(store).wf(),
        settle_refusal(old(store)@, caller@, report_id).is_none() ==> reject_fits(
            old(store)@,
            report_id,
        ),
    ensures
        final(store).wf(),
        match result {
            Ok(_) => {
                &&& settle_refusal(old(store)@, caller@, report_id).is_none()
                &&& final(store)@ == after_reject(
                    old(store)@,
                    caller@,
                    report_id,
                    text_view(notes),
                    now,
                )
            },
            Err(e) => {
                &&& settle_refusal(old(store)@, caller@, report_id) == Some(e)
                &&& final(store)@ == old(store)@
            },
        },
        consistent(old(store)@) ==> consistent(final(store)@),
{
    let ghost remarks = text_view(notes);
    let authority = match ensure_authority(store, caller) {
        Ok(authority) => authority,
        Err(e) => {
            return Err(e);
        },
    };
    let report = match crate::authority::store::get_report(store, report_id) {
        Some(report) => report,
        None => {
            return Err(LedgerError::NotFound(Missing::Report));
        },
    };
    if report.status != ReportStatus::Pending {
        return Err(LedgerError::InvalidState(report.status));
    }
    let submitter = match get_user(store, &report.submitter_id) {
        Some(user) => user,
        None => {
            return Err(LedgerError::NotFound(Missing::Submitter));
        },
    };
    let stake_amount = report.stake_amount;
    let mut updated_report = report;
    updated_report.status = ReportStatus::Rejected;
    updated_report.reviewer = Some(authority);
    updated_report.review_date = Some(now);
    updated_report.review_notes = notes;
    match update_report(store, updated_report) {
        Ok(_) => {},
        Err(e) => {
            return Err(e);
        },
    }
    let mut updated_submitter = submitter;
    updated_submitter.stakes_active = updated_submitter.stakes_active - stake_amount;
    updated_submitter.stakes_lost = updated_submitter.stakes_lost + stake_amount;
    create_or_update_user(store, updated_submitter);
    let notice = Message {
        id: 0,
        report_id,
        sender: MessageSender::System,
        content: rejected_text(stake_amount),
        timestamp: now,
        attachment: None,
    };
    create_message(store, &notice);
    proof {
        if consistent(old(store)@) {
            rejection_keeps_consistency(old(store)@, caller@, report_id, remarks, now);
        }
    }
    Ok(())
}

/// Why a message is not posted, if it is not: `NotFound` for an unknown
/// report, `Forbidden` where a reporter writes in the thread of someone
/// else's report.
pub open spec fn post_refusal(s: StoreView, report_id: u64, sender: MessageSenderView) -> Option<
    LedgerError,
> {
    match s.report(report_id) {
        None => Some(LedgerError::NotFound(Missing::Report)),
        Some(report) => match sender {
            MessageSenderView::Reporter(who) => if who != report.submitter_id {
                Some(LedgerError::Forbidden)
            } else {
                None
            },
            _ => None,
        },
    }
}

/// A message as it is handed in; its id is assigned by the store.
pub open spec fn posted_message(
    report_id: u64,
    sender: MessageSenderView,
    content: Seq<char>,
    attachment: Option<Seq<u8>>,
    now: u64,
) -> MessageView {
    MessageView { id: 0, report_id, sender, content, timestamp: now, attachment }
}

/// Appends a message to the thread of a report. Refused as `post_refusal`
/// says.
pub fn post_message(
    store: &mut Store,
    report_id: u64,
    sender: MessageSender,
    content: String,
    attachment: Option<Vec<u8>>,
    now: u64,
) -> (result: Result<(), LedgerError>)
    requires
        old(store).wf(),
        post_refusal(old(store)@, report_id, sender@).is_none() ==> old(store)@.next_message_id()
            <= u64::MAX,
    ensures
        final(store).wf(),
        match result {
            Ok(_) => {
                &&& post_refusal(old(store)@, report_id, sender@).is_none()
                &&& final(store)@ == old(store)@.with_new_message(
                    posted_message(report_id, sender@, content@, bytes_view(attachment), now),
                )
            },
            Err(e) => {
                &&& post_refusal(old(store)@, report_id, sender@) == Some(e)
                &&& final(store)@ == old(store)@
            },
        },
        consistent(old(store)@) ==> consistent(final(store)@),
{
    let report = match crate::authority::store::get_report(store, report_id) {
        Some(report) => report,
        None => {
            return Err(LedgerError::NotFound(Missing::Report));
        },
    };
    let allowed = match &sender {
        MessageSender::Reporter(who) => *who == report.submitter_id,
        _ => true,
    };
    if !allowed {
        return Err(LedgerError::Forbidden);
    }
    let message = Message { id: 0, report_id, sender, content, timestamp: now, attachment };
    create_message(store, &message);
    proof {
        if consistent(old(store)@) {
            message_keeps_consistency(old(store)@, message@);
        }
    }
    Ok(())
}

/// Why an authority's message is not posted, if it is not.
pub open spec fn authority_post_refusal(s: StoreView, caller: Seq<u8>, report_id: u64) -> Option<
    LedgerError,
> {
    if authority_refusal(s, caller).is_some() {
        authority_refusal(s, caller)
    } else {
        post_refusal(s, report_id, MessageSenderView::Authority(caller))
    }
}

/// Posts a message of an authority in the thread of a report.
pub fn send_message_as_authority(
    store: &mut Store,
    caller: &Identity,
    report_id: u64,
    content: String,
    now: u64,
) -> (result: Result<(), LedgerError>)
    requires
        old(store).wf(),
        authority_post_refusal(old(store)@, caller@, report_id).is_none() ==> old(
            store,
        )@.next_message_id() <= u64::MAX,
    ensures
        final(store).wf(),
        match result {
            Ok(_) => {
                &&& authority_post_refusal(old(store)@, caller@, report_id).is_none()
                &&& final(store)@ == old(store)@.with_new_message(
                    posted_message(
                        report_id,
                        MessageSenderView::Authority(caller@),
                        content@,
                        None,
                        now,
                    ),
                )
            },
            Err(e) => {
                &&& authority_post_refusal(old(store)@, caller@, report_id) == Some(e)
                &&& final(store)@ == old(store)@
            },
        },
        consistent(old(store)@) ==> consistent(final(store)@),
{
    let authority = match ensure_authority(store, caller) {
        Ok(authority) => authority,
        Err(e) => {
            return Err(e);
        },
    };
    post_message(store, report_id, MessageSender::Authority(authority), content, None, now)
}

/// Why a reporter's message is not posted, if it is not.
pub open spec fn reporter_post_refusal(s: StoreView, caller: Seq<u8>, report_id: u64) -> Option<
    LedgerError,
> {
    if caller == anonymous_bytes() {
        Some(LedgerError::Unauthenticated)
    } else {
        post_refusal(s, report_id, MessageSenderView::Reporter(caller))
    }
}

/// Posts a message of the submitter in the thread of their own report.
pub fn send_message_as_reporter(
    store: &mut Store,
    caller: &Identity,
    report_id: u64,
    content: String,
    now: u64,
) -> (result: Result<(), LedgerError>)
    requires
        old(store).wf(),
        reporter_post_refusal(old(store)@, caller@, report_id).is_none() ==> old(
            store,
        )@.next_message_id() <= u64::MAX,
    ensures
        final(store).wf(),
        match result {
            Ok(_) => {
                &&& reporter_post_refusal(old(store)@, caller@, report_id).is_none()
                &&& final(store)@ == old(store)@.with_new_message(
                    posted_message(
                        report_id,
                        MessageSenderView::Reporter(caller@),
                        content@,
                        None,
                        now,
                    ),
                )
            },
            Err(e) => {
                &&& reporter_post_refusal(old(store)@, caller@, report_id) == Some(e)
                &&& final(store)@ == old(store)@
            },
        },
        consistent(old(store)@) ==> consistent(final(store)@),
{
    if caller.is_anonymous() {
        return Err(LedgerError::Unauthenticated);
    }
    post_message(store, report_id, MessageSender::Reporter(caller.clone()), content, None, now)
}

/// Who may look at a report and its thread: its submitter and every
/// authority.
pub open spec fn may_see(s: StoreView, viewer: Seq<u8>, report: ReportView) -> bool {
    report.submitter_id == viewer || s.authorities.contains_key(viewer)
}

/// What a viewer gets to see of a report: the report itself, or nothing
/// where it does not exist or is not theirs to see.
pub open spec fn visible_report(s: StoreView, viewer: Seq<u8>, report_id: u64) -> Seq<
    ReportView,
> {
    match s.report(report_id) {
        Some(report) => if may_see(s, viewer, report) {
            seq![report]
        } else {
            Seq::empty()
        },
        None => Seq::empty(),
    }
}

/// What a viewer gets to see of a thread: all of it, or nothing where the
/// report does not exist or is not theirs to see.
pub open spec fn visible_thread(s: StoreView, viewer: Seq<u8>, report_id: u64) -> Seq<
    MessageView,
> {
    match s.report(report_id) {
        Some(report) => if may_see(s, viewer, report) {
            thread_of(s.messages, report_id)
        } else {
            Seq::empty()
        },
        None => Seq::empty(),
    }
}

/// The report with the given id as the caller may see it: one report, or
/// none.
pub fn get_report(store: &Store, caller: &Identity, id: u64) -> (r: Vec<Report>)
    requires
        store.wf(),
    ensures
        report_views(r@) == visible_report(store@, caller@, id),
{
    let mut out: Vec<Report> = Vec::new();
    match crate::authority::store::get_report(store, id) {
        Some(report) => {
            if report.submitter_id == *caller || is_authority(store, caller) {
                let ghost shown = report@;
                out.push(report);
                proof {
                    assert(report_views(out@) =~= seq![shown]);
                }
            } else {
                proof {
                    assert(report_views(out@) =~= Seq::<ReportView>::empty());
                }
            }
        },
        None => {
            proof {
                assert(report_views(out@) =~= Seq::<ReportView>::empty());
            }
        },
    }
    out
}

/// The thread of a report as the caller may see it.
pub fn get_messages(store: &Store, caller: &Identity, report_id: u64) -> (r: Vec<Message>)
    requires
        store.wf(),
    ensures
        message_views(r@) == visible_thread(store@, caller@, report_id),
{
    let report = match crate::authority::store::get_report(store, report_id) {
        Some(report) => report,
        None => {
            let out: Vec<Message> = Vec::new();
            proof {
                assert(message_views(out@) =~= Seq::<MessageView>::empty());
            }
            return out;
        },
    };
    if !(report.submitter_id == *caller) && !is_authority(store, caller) {
        let out: Vec<Message> = Vec::new();
        proof {
            assert(message_views(out@) =~= Seq::<MessageView>::empty());
        }
        return out;
    }
    get_report_messages(store, report_id)
}

/// All reports, for an authority.
pub fn get_all_reports(store: &Store, caller: &Identity) -> (r: Result<Vec<Report>, LedgerError>)
    requires
        store.wf(),
    ensures
        match r {
            Ok(reports) => authority_refusal(store@, caller@).is_none() && report_views(reports@)
                == store@.reports,
            Err(e) => authority_refusal(store@, caller@) == Some(e),
        },
{
    match ensure_authority(store, caller) {
        Ok(_) => Ok(crate::authority::store::get_all_reports(store)),
        Err(e) => Err(e),
    }
}

/// The reports in a given status, for an authority.
pub fn get_reports_by_status(store: &Store, caller: &Identity, status: ReportStatus) -> (r: Result<
    Vec<Report>,
    LedgerError,
>)
    requires
        store.wf(),
    ensures
        match r {
            Ok(reports) => authority_refusal(store@, caller@).is_none() && report_views(reports@)
                == store@.reports.filter(crate::authority::store::has_status(status)),
            Err(e) => authority_refusal(store@, caller@) == Some(e),
        },
{
    match ensure_authority(store, caller) {
        Ok(_) => Ok(crate::authority::store::get_reports_by_status(store, status)),
        Err(e) => Err(e),
    }
}

/// The reports that a caller may list as their own: those they submitted,
/// none for the anonymous identity.
pub open spec fn own_reports(s: StoreView, caller: Seq<u8>) -> Seq<ReportView> {
    if caller == anonymous_bytes() {
        Seq::empty()
    } else {
        s.reports.filter(crate::authority::store::submitted_by(caller))
    }
}

/// The caller's own reports.
pub fn get_user_reports(store: &Store, caller: &Identity) -> (r: Vec<Report>)
    requires
        store.wf(),
    ensures
        report_views(r@) == own_reports(store@, caller@),
{
    if caller.is_anonymous() {
        let out: Vec<Report> = Vec::new();
        proof {
            assert(report_views(out@) =~= Seq::<ReportView>::empty());
        }
        return out;
    }
    crate::authority::store::get_user_reports(store, caller)
}

/// The balance that a caller is told: that of their account, 0 where they
/// have none or are anonymous.
pub open spec fn balance_of(s: StoreView, caller: Seq<u8>) -> u64 {
    if caller == anonymous_bytes() {
        0
    } else {
        match s.user(caller) {
            Some(account) => account.token_balance,
            None => 0,
        }
    }
}

/// The caller's token balance.
pub fn get_user_balance(store: &Store, caller: &Identity) -> (r: u64)
    requires
        store.wf(),
    ensures
        r == balance_of(store@, caller@),
{
    if caller.is_anonymous() {
        return 0;
    }
    match get_user(store, caller) {
        Some(user) => user.token_balance,
        None => 0,
    }
}

/// A snapshot of the statistics, for an authority.
pub fn get_authority_statistics(store: &Store, caller: &Identity) -> (r: Result<
    AuthorityStats,
    LedgerError,
>)
    requires
        store.wf(),
    ensures
        match r {
            Ok(stats) => authority_refusal(store@, caller@).is_none() && stats == store@.stats,
            Err(e) => authority_refusal(store@, caller@) == Some(e),
        },
{
    match ensure_authority(store, caller) {
        Ok(_) => Ok(get_authority_stats(store)),
        Err(e) => Err(e),
    }
}

/// Why an identity is not added to the registry, if it is not: the guard's
/// reasons first, then `AlreadyAuthority` for one that is in it.
pub open spec fn registration_refusal(s: StoreView, caller: Seq<u8>, id: Seq<u8>) -> Option<
    LedgerError,
> {
    if authority_refusal(s, caller).is_some() {
        authority_refusal(s, caller)
    } else if s.authorities.contains_key(id) {
        Some(LedgerError::AlreadyAuthority)
    } else {
        None
    }
}

/// Adds an identity to the authority registry, on the word of an authority.
pub fn add_new_authority(store: &mut Store, caller: &Identity, id: Identity) -> (result: Result<
    (),
    LedgerError,
>)
    requires
        old(store).wf(),
    ensures
        final(store).wf(),
        match result {
            Ok(_) => {
                &&& registration_refusal(old(store)@, caller@, id@).is_none()
                &&& final(store)@ == old(store)@.with_authority(fresh_authority(id@))
            },
            Err(e) => {
                &&& registration_refusal(old(store)@, caller@, id@) == Some(e)
                &&& final(store)@ == old(store)@
            },
        },
        consistent(old(store)@) ==> consistent(final(store)@),
{
    match ensure_authority(store, caller) {
        Ok(_) => {},
        Err(e) => {
            return Err(e);
        },
    }
    if is_authority(store, &id) {
        return Err(LedgerError::AlreadyAuthority);
    }
    let authority = Authority { id, reports_reviewed: Vec::new(), approval_rate_bits: 0 };
    let ghost registered = authority@;
    add_authority(store, authority);
    proof {
        if consistent(old(store)@) {
            registration_keeps_consistency(old(store)@, registered);
        }
    }
    Ok(())
}

/// Sets a new ledger up with the seed data.
pub fn init(store: &mut Store, now: u64)
    requires
        old(store).wf(),
        old(store)@.reports.len() == 0 ==> mock_data_fits(old(store)@, now),
    ensures
        final(store).wf(),
        final(store)@ == if old(store)@.reports.len() > 0 {
            old(store)@
        } else {
            with_mock_data(old(store)@, now)
        },
        consistent(old(store)@) ==> consistent(final(store)@),
{
    initialize_mock_data(store, now);
}

/// Puts the seed data back, on the word of an authority. As the seed data
/// only go into a store without reports, a store that holds one stays as it
/// is.
pub fn reset_to_mock_data(store: &mut Store, caller: &Identity, now: u64) -> (result: Result<
    (),
    LedgerError,
>)
    requires
        old(store).wf(),
        authority_refusal(old(store)@, caller@).is_none() && old(store)@.reports.len() == 0
            ==> mock_data_fits(old(store)@, now),
    ensures
        final(store).wf(),
        match result {
            Ok(_) => {
                &&& authority_refusal(old(store)@, caller@).is_none()
                &&& final(store)@ == if old(store)@.reports.len() > 0 {
                    old(store)@
                } else {
                    with_mock_data(old(store)@, now)
                }
            },
            Err(e) => {
                &&& authority_refusal(old(store)@, caller@) == Some(e)
                &&& final(store)@ == old(store)@
            },
        },
        consistent(old(store)@) ==> consistent(final(store)@),
{
    match ensure_authority(store, caller) {
        Ok(_) => {},
        Err(e) => {
            return Err(e);
        },
    }
    initialize_mock_data(store, now);
    Ok(())
}

/// Whether the store has room for one more message id.
pub fn message_has_room(store: &Store) -> (r: bool)
    requires
        store.wf(),
    ensures
        r == (store@.next_message_id() <= u64::MAX),
{
    message_count(store) < u64::MAX
}

/// Whether a message, should it be posted, gets an id: what `post_message`
/// asks of its caller.
pub fn post_has_room(store: &Store, report_id: u64, sender: &MessageSender) -> (r: bool)
    requires
        store.wf(),
    ensures
        r == (post_refusal(store@, report_id, sender@).is_none() ==> store@.next_message_id()
            <= u64::MAX),
{
    let report = match crate::authority::store::get_report(store, report_id) {
        Some(report) => report,
        None => {
            return true;
        },
    };
    let allowed = match sender {
        MessageSender::Reporter(who) => *who == report.submitter_id,
        _ => true,
    };
    if !allowed {
        return true;
    }
    message_has_room(store)
}

/// Whether an authority's message, should it be posted, gets an id: what
/// `send_message_as_authority` asks of its caller.
pub fn authority_message_has_room(store: &Store, caller: &Identity, report_id: u64) -> (r: bool)
    requires
        store.wf(),
    ensures
        r == (authority_post_refusal(store@, caller@, report_id).is_none()
            ==> store@.next_message_id() <= u64::MAX),
{
    match ensure_authority(store, caller) {
        Ok(_) => {},
        Err(_) => {
            return true;
        },
    }
    match crate::authority::store::get_report(store, report_id) {
        Some(_) => message_has_room(store),
        None => true,
    }
}

/// Whether a reporter's message, should it be posted, gets an id: what
/// `send_message_as_reporter` asks of its caller.
pub fn reporter_message_has_room(store: &Store, caller: &Identity, report_id: u64) -> (r: bool)
    requires
        store.wf(),
    ensures
        r == (reporter_post_refusal(store@, caller@, report_id).is_none()
            ==> store@.next_message_id() <= u64::MAX),
{
    if caller.is_anonymous() {
        return true;
    }
    match crate::authority::store::get_report(store, report_id) {
        Some(report) => {
            if *caller == report.submitter_id {
                message_has_room(store)
            } else {
                true
            }
        },
        None => true,
    }
}

/// Whether a submission, should it be accepted, fits: what `submit_report`
/// asks of its caller.
pub fn submit_has_room(store: &Store, caller: &Identity, stake_amount: u64) -> (r: bool)
    requires
        store.wf(),
    ensures
        r == (submit_refusal(store@, caller@, stake_amount).is_none() ==> submit_fits(
            store@,
            caller@,
            stake_amount,
        )),
{
    if caller.is_anonymous() {
        return true;
    }
    if stake_amount < get_reward_config(store).min_stake_amount {
        return true;
    }
    let stakes_active = match get_user(store, caller) {
        Some(user) => {
            if user.token_balance < stake_amount {
                return true;
            }
            user.stakes_active
        },
        None => {
            if STARTING_BALANCE < stake_amount {
                return true;
            }
            0
        },
    };
    report_count(store) < u64::MAX && message_has_room(store) && get_authority_stats(
        store,
    ).reports_pending < u64::MAX && stake_amount <= u64::MAX - stakes_active
}

/// Whether a verification, should it be accepted, fits: what
/// `verify_report` asks of its caller.
pub fn verify_has_room(store: &Store, caller: &Identity, report_id: u64) -> (r: bool)
    requires
        store.wf(),
    ensures
        r == (settle_refusal(store@, caller@, report_id).is_none() ==> verify_fits(
            store@,
            report_id,
        )),
{
    match ensure_authority(store, caller) {
        Ok(_) => {},
        Err(_) => {
            return true;
        },
    }
    let report = match crate::authority::store::get_report(store, report_id) {
        Some(report) => report,
        None => {
            return true;
        },
    };
    if report.status != ReportStatus::Pending {
        return true;
    }
    let submitter = match get_user(store, &report.submitter_id) {
        Some(user) => user,
        None => {
            return true;
        },
    };
    let stats = get_authority_stats(store);
    let reward = match report.stake_amount.checked_mul(get_reward_config(store).reward_multiplier) {
        Some(reward) => reward,
        None => {
            return false;
        },
    };
    let credit = match report.stake_amount.checked_add(reward) {
        Some(credit) => credit,
        None => {
            return false;
        },
    };
    credit <= u64::MAX - submitter.token_balance && submitter.stakes_active >= report.stake_amount
        && reward <= u64::MAX - submitter.rewards_earned && stats.reports_pending > 0
        && stats.reports_verified < u64::MAX && reward <= u64::MAX
        - stats.total_rewards_distributed && message_has_room(store)
}

/// Whether a rejection, should it be accepted, fits: what `reject_report`
/// asks of its caller.
pub fn reject_has_room(store: &Store, caller: &Identity, report_id: u64) -> (r: bool)
    requires
        store.wf(),
    ensures
        r == (settle_refusal(store@, caller@, report_id).is_none() ==> reject_fits(
            store@,
            report_id,
        )),
{
    match ensure_authority(store, caller) {
        Ok(_) => {},
        Err(_) => {
            return true;
        },
    }
    let report = match crate::authority::store::get_report(store, report_id) {
        Some(report) => report,
        None => {
            return true;
        },
    };
    if report.status != ReportStatus::Pending {
        return true;
    }
    let submitter = match get_user(store, &report.submitter_id) {
        Some(user) => user,
        None => {
            return true;
        },
    };
    let stats = get_authority_stats(store);
    submitter.stakes_active >= report.stake_amount && report.stake_amount <= u64::MAX
        - submitter.stakes_lost && stats.reports_pending > 0 && stats.reports_rejected < u64::MAX
        && message_has_room(store)
}

/// Whether the seed data fit, should the store take them: what `init` and
/// `reset_to_mock_data` ask of their caller.
pub fn mock_data_has_room(store: &Store, now: u64) -> (r: bool)
    requires
        store.wf(),
    ensures
        r == (store@.reports.len() == 0 ==> mock_data_fits(store@, now)),
{
    if report_count(store) > 0 {
        return true;
    }
    now >= DAY_NS * 34 && message_count(store) <= u64::MAX - 3 && get_authority_stats(
        store,
    ).reports_pending <= u64::MAX - 5
}

/// Whether the seed data fit, should an authority's reset put them in:
/// what `reset_to_mock_data` asks of its caller.
pub fn reset_has_room(store: &Store, caller: &Identity, now: u64) -> (r: bool)
    requires
        store.wf(),
    ensures
        r == (authority_refusal(store@, caller@).is_none() && store@.reports.len() == 0
            ==> mock_data_fits(store@, now)),
{
    match ensure_authority(store, caller) {
        Ok(_) => mock_data_has_room(store, now),
        Err(_) => true,
    }
}

} // verus!
