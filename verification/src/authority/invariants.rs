//! The invariants that tie reports, accounts and statistics together, and
//! the proofs that the lifecycle operations keep them.

use crate::authority::handlers::{
    after_reject, after_submit, after_verify, authority_refusal, pending_report, reject_fits,
    reward_of, settle_refusal, submit_account, submit_fits, submit_refusal, verify_fits,
    SubmissionView,
};
use crate::authority::store::{
    after_transfer, debited, receiving_account, transfer_fits, transfer_outcome, StoreView,
};
use crate::authority::types::{
    fresh_user, AuthorityView, MessageView, ReportStatus, ReportView, UserView,
};
use vstd::prelude::*;

verus! {

/// The sum of a weight over the reports.
pub open spec fn total(reports: Seq<ReportView>, weight: spec_fn(ReportView) -> nat) -> nat
    decreases reports.len(),
{
    if reports.len() == 0 {
        0
    } else {
        total(reports.drop_last(), weight) + weight(reports.last())
    }
}

/// A new report adds its weight to the sum.
pub proof fn lemma_total_push(
    reports: Seq<ReportView>,
    weight: spec_fn(ReportView) -> nat,
    report: ReportView,
)
    ensures
        total(reports.push(report), weight) == total(reports, weight) + weight(report),
{
    assert(reports.push(report).drop_last() =~= reports);
}

/// Replacing a report takes its weight out of the sum and puts that of the
/// new one in.
pub proof fn lemma_total_update(
    reports: Seq<ReportView>,
    weight: spec_fn(ReportView) -> nat,
    i: int,
    report: ReportView,
)
    requires
        0 <= i < reports.len(),
    ensures
        total(reports.update(i, report), weight) + weight(reports[i]) == total(reports, weight)
            + weight(report),
    decreases reports.len(),
{
    let updated = reports.update(i, report);
    if i == reports.len() - 1 {
        assert(updated.drop_last() =~= reports.drop_last());
    } else {
        assert(updated.drop_last() =~= reports.drop_last().update(i, report));
        lemma_total_update(reports.drop_last(), weight, i, report);
    }
}

/// The sum is at least the weight of each report.
pub proof fn lemma_total_covers(
    reports: Seq<ReportView>,
    weight: spec_fn(ReportView) -> nat,
    i: int,
)
    requires
        0 <= i < reports.len(),
    ensures
        weight(reports[i]) <= total(reports, weight),
    decreases reports.len(),
{
    if i < reports.len() - 1 {
        lemma_total_covers(reports.drop_last(), weight, i);
    }
}

/// Where no report weighs anything, the sum is 0.
pub proof fn lemma_total_of_nothing(reports: Seq<ReportView>, weight: spec_fn(ReportView) -> nat)
    requires
        forall|i: int| 0 <= i < reports.len() ==> weight(#[trigger] reports[i]) == 0,
    ensures
        total(reports, weight) == 0,
    decreases reports.len(),
{
    if reports.len() > 0 {
        assert(reports.last() == reports[reports.len() - 1]);
        assert forall|i: int| 0 <= i < reports.drop_last().len() implies weight(
            #[trigger] reports.drop_last()[i],
        ) == 0 by {
            assert(reports.drop_last()[i] == reports[i]);
        }
        lemma_total_of_nothing(reports.drop_last(), weight);
    }
}

/// The ids of the reports that someone submitted, by id.
pub open spec fn filed_by(reports: Seq<ReportView>, who: Seq<u8>) -> Seq<u64>
    decreases reports.len(),
{
    if reports.len() == 0 {
        Seq::empty()
    } else if reports.last().submitter_id == who {
        filed_by(reports.drop_last(), who).push(reports.last().id)
    } else {
        filed_by(reports.drop_last(), who)
    }
}

/// A new report joins the list of its submitter and of nobody else.
pub proof fn lemma_filed_push(reports: Seq<ReportView>, who: Seq<u8>, report: ReportView)
    ensures
        filed_by(reports.push(report), who) == if report.submitter_id == who {
            filed_by(reports, who).push(report.id)
        } else {
            filed_by(reports, who)
        },
{
    assert(reports.push(report).drop_last() =~= reports);
}

/// Replacing a report by one with the same id and submitter changes
/// nobody's list.
pub proof fn lemma_filed_update(
    reports: Seq<ReportView>,
    who: Seq<u8>,
    i: int,
    report: ReportView,
)
    requires
        0 <= i < reports.len(),
        report.id == reports[i].id,
        report.submitter_id == reports[i].submitter_id,
    ensures
        filed_by(reports.update(i, report), who) == filed_by(reports, who),
    decreases reports.len(),
{
    let updated = reports.update(i, report);
    if i == reports.len() - 1 {
        assert(updated.drop_last() =~= reports.drop_last());
    } else {
        assert(updated.drop_last() =~= reports.drop_last().update(i, report));
        lemma_filed_update(reports.drop_last(), who, i, report);
    }
}

/// Someone who submitted no report has an empty list.
pub proof fn lemma_filed_nothing(reports: Seq<ReportView>, who: Seq<u8>)
    requires
        forall|i: int| 0 <= i < reports.len() ==> (#[trigger] reports[i]).submitter_id != who,
    ensures
        filed_by(reports, who) == Seq::<u64>::empty(),
    decreases reports.len(),
{
    if reports.len() > 0 {
        assert(reports.last() == reports[reports.len() - 1]);
        assert forall|i: int| 0 <= i < reports.drop_last().len() implies (
        #[trigger] reports.drop_last()[i]).submitter_id != who by {
            assert(reports.drop_last()[i] == reports[i]);
        }
        lemma_filed_nothing(reports.drop_last(), who);
    }
}

/// The stake that a report holds in escrow for someone.
pub open spec fn stake_held_for(who: Seq<u8>) -> spec_fn(ReportView) -> nat {
    |r: ReportView|
        if r.submitter_id == who && r.status.holds_stake() {
            r.stake_amount as nat
        } else {
            0
        }
}

/// The stake that someone lost on a report.
pub open spec fn stake_lost_by(who: Seq<u8>) -> spec_fn(ReportView) -> nat {
    |r: ReportView|
        if r.submitter_id == who && r.status == ReportStatus::Rejected {
            r.stake_amount as nat
        } else {
            0
        }
}

/// The reward that a report paid to someone.
pub open spec fn reward_paid_to(who: Seq<u8>) -> spec_fn(ReportView) -> nat {
    |r: ReportView|
        if r.submitter_id == who {
            r.reward_amount as nat
        } else {
            0
        }
}

/// The reward that a report paid.
pub open spec fn reward_paid() -> spec_fn(ReportView) -> nat {
    |r: ReportView| r.reward_amount as nat
}

/// One for a report in the given status.
pub open spec fn one_in(status: ReportStatus) -> spec_fn(ReportView) -> nat {
    |r: ReportView|
        if r.status == status {
            1nat
        } else {
            0nat
        }
}

/// A report is consistent in itself: it is pending, approved or rejected;
/// only an approved report carries a reward; and it names the authority and
/// the time of its settlement exactly if it is settled.
pub open spec fn report_sound(r: ReportView) -> bool {
    &&& r.status != ReportStatus::UnderReview
    &&& r.status != ReportStatus::Approved ==> r.reward_amount == 0
    &&& r.reviewer.is_some() <==> r.status.is_terminal()
    &&& r.review_date.is_some() <==> r.status.is_terminal()
}

/// An account agrees with the reports: its list names the reports it
/// submitted, its escrow is the sum of the stakes of its pending reports,
/// its lost stakes the sum of those of its rejected reports, its rewards the
/// sum of the rewards of its reports.
pub open spec fn account_agrees(s: StoreView, account: UserView) -> bool {
    &&& account.reports_submitted == filed_by(s.reports, account.id)
    &&& account.stakes_active == total(s.reports, stake_held_for(account.id))
    &&& account.stakes_lost == total(s.reports, stake_lost_by(account.id))
    &&& account.rewards_earned == total(s.reports, reward_paid_to(account.id))
}

/// The ledger is consistent: the records carry their keys, every report is
/// consistent in itself and its submitter has an account, every account
/// agrees with the reports, and the statistics count the reports by status
/// and sum up the rewards.
pub open spec fn consistent(s: StoreView) -> bool {
    &&& s.well_formed()
    &&& forall|i: int| 0 <= i < s.reports.len() ==> report_sound(#[trigger] s.reports[i])
    &&& forall|i: int|
        0 <= i < s.reports.len() ==> s.users.contains_key((#[trigger] s.reports[i]).submitter_id)
    &&& forall|k: Seq<u8>| s.users.contains_key(k) ==> account_agrees(s, #[trigger] s.users[k])
    &&& s.stats.reports_pending == total(s.reports, one_in(ReportStatus::Pending))
    &&& s.stats.reports_verified == total(s.reports, one_in(ReportStatus::Approved))
    &&& s.stats.reports_rejected == total(s.reports, one_in(ReportStatus::Rejected))
    &&& s.stats.total_rewards_distributed == total(s.reports, reward_paid())
}

/// A ledger without reports and accounts, with nothing counted, is
/// consistent.
pub proof fn empty_ledger_is_consistent(s: StoreView)
    requires
        s.well_formed(),
        s.reports.len() == 0,
        forall|k: Seq<u8>| !s.users.contains_key(k),
        s.stats.reports_pending == 0,
        s.stats.reports_verified == 0,
        s.stats.reports_rejected == 0,
        s.stats.total_rewards_distributed == 0,
    ensures
        consistent(s),
{
}

/// In a consistent ledger the three counts of the statistics add up to the
/// number of reports.
pub proof fn counts_add_up_to_the_reports(s: StoreView)
    requires
        consistent(s),
    ensures
        s.stats.reports_pending + s.stats.reports_verified + s.stats.reports_rejected
            == s.reports.len(),
{
    lemma_counts_partition(s.reports);
}

/// Where every report is pending, approved or rejected, the three counts
/// add up to the number of reports.
pub proof fn lemma_counts_partition(reports: Seq<ReportView>)
    requires
        forall|i: int| 0 <= i < reports.len() ==> report_sound(#[trigger] reports[i]),
    ensures
        total(reports, one_in(ReportStatus::Pending)) + total(
            reports,
            one_in(ReportStatus::Approved),
        ) + total(reports, one_in(ReportStatus::Rejected)) == reports.len(),
    decreases reports.len(),
{
    if reports.len() > 0 {
        assert(report_sound(reports[reports.len() - 1]));
        assert forall|i: int| 0 <= i < reports.drop_last().len() implies report_sound(
            #[trigger] reports.drop_last()[i],
        ) by {
            assert(reports.drop_last()[i] == reports[i]);
        }
        lemma_counts_partition(reports.drop_last());
    }
}

/// Someone without an account has nothing in the reports: no stake held,
/// none lost, no reward.
pub proof fn lemma_stranger_has_nothing(s: StoreView, who: Seq<u8>)
    requires
        consistent(s),
        !s.users.contains_key(who),
    ensures
        filed_by(s.reports, who) == Seq::<u64>::empty(),
        total(s.reports, stake_held_for(who)) == 0,
        total(s.reports, stake_lost_by(who)) == 0,
        total(s.reports, reward_paid_to(who)) == 0,
{
    assert forall|i: int| 0 <= i < s.reports.len() implies (#[trigger] s.reports[i]).submitter_id
        != who by {
        assert(s.users.contains_key(s.reports[i].submitter_id));
    }
    lemma_filed_nothing(s.reports, who);
    lemma_total_of_nothing(s.reports, stake_held_for(who));
    lemma_total_of_nothing(s.reports, stake_lost_by(who));
    lemma_total_of_nothing(s.reports, reward_paid_to(who));
}

/// In a consistent ledger a settlement is never refused for want of the
/// submitter's account, and the escrow and the pending count cover what a
/// settlement takes out of them.
pub proof fn consistent_ledger_covers_settlement(s: StoreView, report_id: u64)
    requires
        consistent(s),
        s.report(report_id).is_some(),
        s.report(report_id).unwrap().status == ReportStatus::Pending,
    ensures
        s.users.contains_key(s.report(report_id).unwrap().submitter_id),
        s.users[s.report(report_id).unwrap().submitter_id].stakes_active >= s.report(
            report_id,
        ).unwrap().stake_amount,
        s.stats.reports_pending > 0,
{
    let report = s.reports[report_id - 1];
    let who = report.submitter_id;
    assert(s.users.contains_key(who));
    assert(account_agrees(s, s.users[who]));
    lemma_total_covers(s.reports, stake_held_for(who), report_id - 1);
    lemma_total_covers(s.reports, one_in(ReportStatus::Pending), report_id - 1);
}

/// In a consistent ledger an authority's verification of a pending report
/// is accepted, and it fits as soon as the sums it adds up have room in
/// `u64`: the escrow and the pending count cover the stake by themselves.
pub proof fn consistent_ledger_fits_verification(s: StoreView, caller: Seq<u8>, report_id: u64)
    requires
        consistent(s),
        authority_refusal(s, caller).is_none(),
        s.report(report_id).is_some(),
        s.report(report_id).unwrap().status == ReportStatus::Pending,
        ({
            let report = s.report(report_id).unwrap();
            let account = s.users[report.submitter_id];
            let reward = report.stake_amount * s.config.reward_multiplier;
            &&& account.token_balance + report.stake_amount + reward <= u64::MAX
            &&& account.rewards_earned + reward <= u64::MAX
            &&& s.stats.total_rewards_distributed + reward <= u64::MAX
            &&& s.stats.reports_verified < u64::MAX
            &&& s.next_message_id() <= u64::MAX
        }),
    ensures
        settle_refusal(s, caller, report_id).is_none(),
        verify_fits(s, report_id),
{
    consistent_ledger_covers_settlement(s, report_id);
    let report = s.report(report_id).unwrap();
    assert(reward_of(s, report) == report.stake_amount * s.config.reward_multiplier);
}

/// In a consistent ledger an authority's rejection of a pending report is
/// accepted, and it fits as soon as the lost stakes, the rejected count and
/// the message ids have room in `u64`.
pub proof fn consistent_ledger_fits_rejection(s: StoreView, caller: Seq<u8>, report_id: u64)
    requires
        consistent(s),
        authority_refusal(s, caller).is_none(),
        s.report(report_id).is_some(),
        s.report(report_id).unwrap().status == ReportStatus::Pending,
        ({
            let report = s.report(report_id).unwrap();
            let account = s.users[report.submitter_id];
            &&& account.stakes_lost + report.stake_amount <= u64::MAX
            &&& s.stats.reports_rejected < u64::MAX
            &&& s.next_message_id() <= u64::MAX
        }),
    ensures
        settle_refusal(s, caller, report_id).is_none(),
        reject_fits(s, report_id),
{
    consistent_ledger_covers_settlement(s, report_id);
}

/// An accepted submission keeps the ledger consistent.
pub proof fn submission_keeps_consistency(
    s: StoreView,
    caller: Seq<u8>,
    submission: SubmissionView,
    stake: u64,
    now: u64,
)
    requires
        consistent(s),
        submit_refusal(s, caller, stake).is_none(),
        submit_fits(s, caller, stake),
    ensures
        consistent(after_submit(s, caller, submission, stake, now)),
{
    let t = after_submit(s, caller, submission, stake, now);
    let id = s.next_report_id() as u64;
    let filed = ReportView { id, ..pending_report(caller, submission, stake, now) };
    let account = submit_account(s, caller);
    assert(t.reports == s.reports.push(filed));
    if !s.users.contains_key(caller) {
        lemma_stranger_has_nothing(s, caller);
    } else {
        assert(account_agrees(s, s.users[caller]));
    }
    lemma_total_push(s.reports, one_in(ReportStatus::Pending), filed);
    lemma_total_push(s.reports, one_in(ReportStatus::Approved), filed);
    lemma_total_push(s.reports, one_in(ReportStatus::Rejected), filed);
    lemma_total_push(s.reports, reward_paid(), filed);
    assert forall|i: int| 0 <= i < t.reports.len() implies report_sound(
        #[trigger] t.reports[i],
    ) && t.users.contains_key(t.reports[i].submitter_id) by {
        if i < s.reports.len() {
            assert(t.reports[i] == s.reports[i]);
            assert(s.users.contains_key(s.reports[i].submitter_id));
        }
    }
    assert forall|k: Seq<u8>| t.users.contains_key(k) implies account_agrees(
        t,
        #[trigger] t.users[k],
    ) by {
        lemma_filed_push(s.reports, k, filed);
        lemma_total_push(s.reports, stake_held_for(k), filed);
        lemma_total_push(s.reports, stake_lost_by(k), filed);
        lemma_total_push(s.reports, reward_paid_to(k), filed);
        if k != caller {
            assert(s.users.contains_key(k));
            assert(account_agrees(s, s.users[k]));
        }
    }
}

/// An accepted verification keeps the ledger consistent.
pub proof fn verification_keeps_consistency(
    s: StoreView,
    caller: Seq<u8>,
    report_id: u64,
    notes: Option<Seq<char>>,
    now: u64,
)
    requires
        consistent(s),
        settle_refusal(s, caller, report_id).is_none(),
        verify_fits(s, report_id),
    ensures
        consistent(after_verify(s, caller, report_id, notes, now)),
{
    let t = after_verify(s, caller, report_id, notes, now);
    let at = report_id - 1;
    let before = s.reports[at];
    let settled = t.reports[at];
    assert(t.reports == s.reports.update(at, settled));
    assert(report_sound(before));
    lemma_total_update(s.reports, one_in(ReportStatus::Pending), at, settled);
    lemma_total_update(s.reports, one_in(ReportStatus::Approved), at, settled);
    lemma_total_update(s.reports, one_in(ReportStatus::Rejected), at, settled);
    lemma_total_update(s.reports, reward_paid(), at, settled);
    assert forall|i: int| 0 <= i < t.reports.len() implies report_sound(
        #[trigger] t.reports[i],
    ) && t.users.contains_key(t.reports[i].submitter_id) by {
        if i != at {
            assert(t.reports[i] == s.reports[i]);
        }
        assert(s.users.contains_key(s.reports[i].submitter_id));
    }
    assert forall|k: Seq<u8>| t.users.contains_key(k) implies account_agrees(
        t,
        #[trigger] t.users[k],
    ) by {
        lemma_filed_update(s.reports, k, at, settled);
        lemma_total_update(s.reports, stake_held_for(k), at, settled);
        lemma_total_update(s.reports, stake_lost_by(k), at, settled);
        lemma_total_update(s.reports, reward_paid_to(k), at, settled);
        assert(s.users.contains_key(k));
        assert(account_agrees(s, s.users[k]));
    }
}

/// An accepted rejection keeps the ledger consistent.
pub proof fn rejection_keeps_consistency(
    s: StoreView,
    caller: Seq<u8>,
    report_id: u64,
    notes: Option<Seq<char>>,
    now: u64,
)
    requires
        consistent(s),
        settle_refusal(s, caller, report_id).is_none(),
        reject_fits(s, report_id),
    ensures
        consistent(after_reject(s, caller, report_id, notes, now)),
{
    let t = after_reject(s, caller, report_id, notes, now);
    let at = report_id - 1;
    let before = s.reports[at];
    let settled = t.reports[at];
    assert(t.reports == s.reports.update(at, settled));
    assert(report_sound(before));
    lemma_total_update(s.reports, one_in(ReportStatus::Pending), at, settled);
    lemma_total_update(s.reports, one_in(ReportStatus::Approved), at, settled);
    lemma_total_update(s.reports, one_in(ReportStatus::Rejected), at, settled);
    lemma_total_update(s.reports, reward_paid(), at, settled);
    assert forall|i: int| 0 <= i < t.reports.len() implies report_sound(
        #[trigger] t.reports[i],
    ) && t.users.contains_key(t.reports[i].submitter_id) by {
        if i != at {
            assert(t.reports[i] == s.reports[i]);
        }
        assert(s.users.contains_key(s.reports[i].submitter_id));
    }
    assert forall|k: Seq<u8>| t.users.contains_key(k) implies account_agrees(
        t,
        #[trigger] t.users[k],
    ) by {
        lemma_filed_update(s.reports, k, at, settled);
        lemma_total_update(s.reports, stake_held_for(k), at, settled);
        lemma_total_update(s.reports, stake_lost_by(k), at, settled);
        lemma_total_update(s.reports, reward_paid_to(k), at, settled);
        assert(s.users.contains_key(k));
        assert(account_agrees(s, s.users[k]));
    }
}

/// A transfer that goes through keeps the ledger consistent: it moves
/// balances and touches neither stakes nor reports.
pub proof fn transfer_keeps_consistency(s: StoreView, from: Seq<u8>, to: Seq<u8>, amount: u64)
    requires
        consistent(s),
        transfer_outcome(s, from, amount).is_ok(),
        transfer_fits(s, from, to, amount),
    ensures
        consistent(after_transfer(s, from, to, amount)),
{
    let sent = debited(s, from, amount);
    let t = after_transfer(s, from, to, amount);
    assert(account_agrees(s, s.users[from]));
    if !s.users.contains_key(to) {
        lemma_stranger_has_nothing(s, to);
    } else {
        assert(account_agrees(s, s.users[to]));
    }
    assert(account_agrees(s, receiving_account(sent, to)));
    assert forall|i: int| 0 <= i < t.reports.len() implies report_sound(
        #[trigger] t.reports[i],
    ) && t.users.contains_key(t.reports[i].submitter_id) by {
        assert(s.users.contains_key(s.reports[i].submitter_id));
    }
    assert forall|k: Seq<u8>| t.users.contains_key(k) implies account_agrees(
        t,
        #[trigger] t.users[k],
    ) by {
        if k != from && k != to {
            assert(s.users.contains_key(k));
            assert(account_agrees(s, s.users[k]));
        }
    }
}

/// The store after a report went on record for a submitter who has an
/// account, and its stake into the escrow of that account: the report gets
/// the next id and counts as pending, the account lists it and holds its
/// stake.
pub open spec fn staked(s: StoreView, report: ReportView) -> StoreView {
    let id = s.next_report_id() as u64;
    let account = s.users[report.submitter_id];
    s.with_new_report(report).with_user(
        UserView {
            reports_submitted: account.reports_submitted.push(id),
            stakes_active: (account.stakes_active + report.stake_amount) as u64,
            ..account
        },
    )
}

/// Whether a report can be staked: it is pending and unsettled, its
/// submitter has an account, and the counters have room.
pub open spec fn can_stake(s: StoreView, report: ReportView) -> bool {
    &&& report.status == ReportStatus::Pending
    &&& report.reward_amount == 0
    &&& report.reviewer.is_none()
    &&& report.review_date.is_none()
    &&& s.users.contains_key(report.submitter_id)
    &&& s.next_report_id() <= u64::MAX
    &&& s.stats.reports_pending < u64::MAX
    &&& s.users[report.submitter_id].stakes_active + report.stake_amount <= u64::MAX
}

/// Staking a report keeps the ledger consistent.
pub proof fn staking_keeps_consistency(s: StoreView, report: ReportView)
    requires
        consistent(s),
        can_stake(s, report),
    ensures
        consistent(staked(s, report)),
{
    let t = staked(s, report);
    let id = s.next_report_id() as u64;
    let filed = ReportView { id, ..report };
    let who = report.submitter_id;
    assert(t.reports == s.reports.push(filed));
    assert(account_agrees(s, s.users[who]));
    lemma_total_push(s.reports, one_in(ReportStatus::Pending), filed);
    lemma_total_push(s.reports, one_in(ReportStatus::Approved), filed);
    lemma_total_push(s.reports, one_in(ReportStatus::Rejected), filed);
    lemma_total_push(s.reports, reward_paid(), filed);
    assert forall|i: int| 0 <= i < t.reports.len() implies report_sound(
        #[trigger] t.reports[i],
    ) && t.users.contains_key(t.reports[i].submitter_id) by {
        if i < s.reports.len() {
            assert(t.reports[i] == s.reports[i]);
            assert(s.users.contains_key(s.reports[i].submitter_id));
        }
    }
    assert forall|k: Seq<u8>| t.users.contains_key(k) implies account_agrees(
        t,
        #[trigger] t.users[k],
    ) by {
        lemma_filed_push(s.reports, k, filed);
        lemma_total_push(s.reports, stake_held_for(k), filed);
        lemma_total_push(s.reports, stake_lost_by(k), filed);
        lemma_total_push(s.reports, reward_paid_to(k), filed);
        if k != who {
            assert(s.users.contains_key(k));
            assert(account_agrees(s, s.users[k]));
        }
    }
}

/// In a ledger without reports, a new account with a balance and nothing
/// else keeps the ledger consistent.
pub proof fn new_account_keeps_consistency(s: StoreView, who: Seq<u8>, balance: u64)
    requires
        consistent(s),
        s.reports.len() == 0,
    ensures
        consistent(s.with_user(fresh_user(who, balance))),
{
    let t = s.with_user(fresh_user(who, balance));
    assert forall|k: Seq<u8>| t.users.contains_key(k) implies account_agrees(
        t,
        #[trigger] t.users[k],
    ) by {
        if k != who {
            assert(account_agrees(s, s.users[k]));
        }
    }
}

/// A new message keeps the ledger consistent.
pub proof fn message_keeps_consistency(s: StoreView, message: MessageView)
    requires
        consistent(s),
        s.next_message_id() <= u64::MAX,
    ensures
        consistent(s.with_new_message(message)),
{
    let t = s.with_new_message(message);
    assert forall|k: Seq<u8>| t.users.contains_key(k) implies account_agrees(
        t,
        #[trigger] t.users[k],
    ) by {
        assert(account_agrees(s, s.users[k]));
    }
}

/// A new authority keeps the ledger consistent.
pub proof fn registration_keeps_consistency(s: StoreView, authority: AuthorityView)
    requires
        consistent(s),
    ensures
        consistent(s.with_authority(authority)),
{
    let t = s.with_authority(authority);
    assert forall|k: Seq<u8>| t.users.contains_key(k) implies account_agrees(
        t,
        #[trigger] t.users[k],
    ) by {
        assert(account_agrees(s, s.users[k]));
    }
}

} // verus!
