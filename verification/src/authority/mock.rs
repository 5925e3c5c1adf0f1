//! The demonstration data that a new ledger starts with.

use crate::authority::identity::{text_identity, Identity};
use crate::authority::invariants::{
    can_stake, consistent, message_keeps_consistency, new_account_keeps_consistency,
    registration_keeps_consistency, staked, staking_keeps_consistency,
};
use crate::authority::store::{
    add_authority, create_message, create_or_update_user, create_report, get_user, report_count,
    Store, StoreView,
};
use crate::authority::types::{
    fresh_authority, fresh_user, Authority, Location, LocationView, Message, MessageSender,
    MessageSenderView, MessageView, Report, ReportStatus, ReportView, User,
};
use vstd::prelude::*;
use vstd::string::StringExecFns;

verus! {

/// A day in nanoseconds.
pub const DAY_NS: u64 = 86_400_000_000_000;

/// The identity of the seeded authority.
pub open spec fn seed_authority() -> Seq<u8> {
    text_identity("d27x5-vpdgv-xg4ve-woszp-ulej4-4hlq4-xrlwz-nyedm-rtjsa-a2d2z-oqe"@)
}

/// The identity of the first seeded user.
pub open spec fn seed_user_1() -> Seq<u8> {
    text_identity("2vxsx-fae"@)
}

/// The identity of the second seeded user.
pub open spec fn seed_user_2() -> Seq<u8> {
    text_identity("3dkmc-byamr-3ypol-hgppr-645za-wxgml-ba5t2-a"@)
}

/// The identity of the third seeded user.
pub open spec fn seed_user_3() -> Seq<u8> {
    text_identity("2ibo7-dia"@)
}

/// A pending report as the seed data describe it; the store assigns its id.
pub open spec fn seed_report(
    title: Seq<char>,
    description: Seq<char>,
    category: Seq<char>,
    date_submitted: u64,
    incident_date: Seq<char>,
    address: Seq<char>,
    latitude_bits: u64,
    longitude_bits: u64,
    submitter: Seq<u8>,
    evidence_count: u32,
    stake: u64,
) -> ReportView {
    ReportView {
        id: 0,
        title,
        description,
        category,
        date_submitted,
        incident_date: Some(incident_date),
        location: Some(LocationView { address: Some(address), latitude_bits, longitude_bits }),
        submitter_id: submitter,
        evidence_count,
        evidence_files: Seq::empty(),
        stake_amount: stake,
        reward_amount: 0,
        status: ReportStatus::Pending,
        reviewer: None,
        review_date: None,
        review_notes: None,
    }
}

fn build_report(
    title: &str,
    description: &str,
    category: &str,
    date_submitted: u64,
    incident_date: &str,
    address: &str,
    latitude_bits: u64,
    longitude_bits: u64,
    submitter: &Identity,
    evidence_count: u32,
    stake: u64,
) -> (r: Report)
    ensures
        r@ == seed_report(
            title@,
            description@,
            category@,
            date_submitted,
            incident_date@,
            address@,
            latitude_bits,
            longitude_bits,
            submitter@,
            evidence_count,
            stake,
        ),
{
    Report {
        id: 0,
        title: String::from_str(title),
        description: String::from_str(description),
        category: String::from_str(category),
        date_submitted,
        incident_date: Some(String::from_str(incident_date)),
        location: Some(
            Location { address: Some(String::from_str(address)), latitude_bits, longitude_bits },
        ),
        submitter_id: submitter.clone(),
        evidence_count,
        evidence_files: Vec::new(),
        stake_amount: stake,
        reward_amount: 0,
        status: ReportStatus::Pending,
        reviewer: None,
        review_date: None,
        review_notes: None,
    }
}

/// A message as the seed data describe it; the store assigns its id.
pub open spec fn seed_message(
    report_id: u64,
    sender: MessageSenderView,
    content: Seq<char>,
    timestamp: u64,
) -> MessageView {
    MessageView { id: 0, report_id, sender, content, timestamp, attachment: None }
}

fn build_message(report_id: u64, sender: MessageSender, content: &str, timestamp: u64) -> (m:
    Message)
    ensures
        m@ == seed_message(report_id, sender@, content@, timestamp),
{
    Message {
        id: 0,
        report_id,
        sender,
        content: String::from_str(content),
        timestamp,
        attachment: None,
    }
}

/// The first seeded report, for its submitter.
pub open spec fn seed_report_1(submitter: Seq<u8>, now: u64) -> ReportView {
    seed_report(
        "Environmental Dumping Near River"@,
        "Multiple industrial containers being dumped in the river near manufacturing zone. Activity observed between 2-4 AM with trucks bearing no license plates."@,
        "environmental"@,
        (now - DAY_NS * 5) as u64,
        "2025-04-21"@,
        "Near Industrial Zone, South River Bank"@,
        0x403497fcb923a29c,
        0x4053bda027525461,
        submitter,
        3,
        15,
    )
}

/// The second seeded report, for its submitter.
pub open spec fn seed_report_2(submitter: Seq<u8>, now: u64) -> ReportView {
    seed_report(
        "Suspicious Financial Activity"@,
        "Unusual pattern of transactions from multiple accounts feeding into offshore accounts. Potential money laundering scheme involving local businesses."@,
        "fraud"@,
        (now - DAY_NS * 4) as u64,
        "2025-04-22"@,
        "Financial District, Downtown"@,
        0x40331374bc6a7efa,
        0x4052382c3c9eecc0,
        submitter,
        1,
        20,
    )
}

/// The third seeded report, for its submitter.
pub open spec fn seed_report_3(submitter: Seq<u8>, now: u64) -> ReportView {
    seed_report(
        "Cyber Attack Attempt"@,
        "Multiple unauthorized access attempts to government database detected. IP addresses traced to foreign servers. Advanced techniques used to bypass security."@,
        "cybercrime"@,
        (now - DAY_NS * 3) as u64,
        "2025-04-23"@,
        "Online - Multiple IP addresses"@,
        0x403c9d288ce703b0,
        0x40534d604189374c,
        submitter,
        5,
        10,
    )
}

/// The fourth seeded report, for its submitter.
pub open spec fn seed_report_4(submitter: Seq<u8>, now: u64) -> ReportView {
    seed_report(
        "Counterfeit Products Distribution"@,
        "Large scale counterfeit luxury goods being sold in local markets. Products have fake authentication certificates and packaging."@,
        "fraud"@,
        (now - DAY_NS * 30) as u64,
        "2025-03-24"@,
        "Main Market Area, City Center"@,
        0x402a2a57a786c227,
        0x405411532617c1be,
        submitter,
        2,
        5,
    )
}

/// The fifth seeded report, for its submitter.
pub open spec fn seed_report_5(submitter: Seq<u8>, now: u64) -> ReportView {
    seed_report(
        "Illegal Waste Disposal"@,
        "Company disposing hazardous waste in protected area during night hours. Chemical waste being buried in plastic containers."@,
        "environmental"@,
        (now - DAY_NS * 34) as u64,
        "2025-03-23"@,
        "Protected Forest Area, Northern Region"@,
        0x40410ab6ae7d566d,
        0x4052b306f6944674,
        submitter,
        4,
        25,
    )
}

/// The store after the seed data went in for the given identities: one
/// authority; three users with balances of 500, 750 and 1000; five pending
/// reports, the first and fourth of the first user, the second of the second,
/// the third and fifth of the third, each with its stake in the escrow of its
/// submitter; and three messages. The statistics count the five reports as
/// pending. Where two of the identities coincide they share one account,
/// which starts with the balance written last and holds the stakes of both.
pub open spec fn seeded(
    s: StoreView,
    authority: Seq<u8>,
    first: Seq<u8>,
    second: Seq<u8>,
    third: Seq<u8>,
    now: u64,
) -> StoreView {
    let registered = s.with_authority(fresh_authority(authority)).with_user(
        fresh_user(first, 500),
    ).with_user(fresh_user(second, 750)).with_user(fresh_user(third, 1000));
    let reported = staked(
        staked(
            staked(
                staked(staked(registered, seed_report_1(first, now)), seed_report_2(second, now)),
                seed_report_3(third, now),
            ),
            seed_report_4(first, now),
        ),
        seed_report_5(third, now),
    );
    reported.with_new_message(
        seed_message(
            1,
            MessageSenderView::Reporter(first),
            "I have submitted additional evidence via email."@,
            (now - DAY_NS) as u64,
        ),
    ).with_new_message(
        seed_message(
            1,
            MessageSenderView::Authority(authority),
            "Thank you for your report. We will investigate this matter."@,
            (now - DAY_NS / 2) as u64,
        ),
    ).with_new_message(
        seed_message(
            3,
            MessageSenderView::Reporter(third),
            "I have the server logs available if needed."@,
            (now - DAY_NS * 2) as u64,
        ),
    )
}

/// The store after the seed data went in for the identities that the seed
/// texts stand for.
pub open spec fn with_mock_data(s: StoreView, now: u64) -> StoreView {
    seeded(s, seed_authority(), seed_user_1(), seed_user_2(), seed_user_3(), now)
}

/// Whether the seed data fit: the clock is at least 34 days past its zero,
/// and the message ids and the pending count have room.
pub open spec fn mock_data_fits(s: StoreView, now: u64) -> bool {
    &&& now >= DAY_NS * 34
    &&& s.messages.len() + 3 <= u64::MAX
    &&& s.stats.reports_pending + 5 <= u64::MAX
}

/// The three seeded users have accounts, each with at most `bound` in
/// escrow.
pub open spec fn escrows_within(
    s: StoreView,
    first: Seq<u8>,
    second: Seq<u8>,
    third: Seq<u8>,
    bound: u64,
) -> bool {
    &&& s.users.contains_key(first) && s.users[first].stakes_active <= bound
    &&& s.users.contains_key(second) && s.users[second].stakes_active <= bound
    &&& s.users.contains_key(third) && s.users[third].stakes_active <= bound
}

/// Puts a report on record and its stake into the escrow of its submitter's
/// account. Returns the id of the report.
fn stake_report(store: &mut Store, report: &Report) -> (id: u64)
    requires
        old(store).wf(),
        can_stake(old(store)@, report@),
    ensures
        final(store).wf(),
        id == old(store)@.next_report_id(),
        final(store)@ == staked(old(store)@, report@),
        consistent(old(store)@) ==> consistent(final(store)@),
{
    let id = create_report(store, report);
    let mut account = match get_user(store, &report.submitter_id) {
        Some(user) => user,
        None => User::with_balance(report.submitter_id.clone(), 0),
    };
    account.reports_submitted.push(id);
    account.stakes_active = account.stakes_active + report.stake_amount;
    create_or_update_user(store, account);
    proof {
        if consistent(old(store)@) {
            staking_keeps_consistency(old(store)@, report@);
        }
    }
    id
}

/// Puts the seed data for the given identities into a store that holds no
/// report.
pub fn seed_ledger(
    store: &mut Store,
    authority: Identity,
    first: Identity,
    second: Identity,
    third: Identity,
    now: u64,
)
    requires
        old(store).wf(),
        old(store)@.reports.len() == 0,
        mock_data_fits(old(store)@, now),
    ensures
        final(store).wf(),
        final(store)@ == seeded(old(store)@, authority@, first@, second@, third@, now),
        consistent(old(store)@) ==> consistent(final(store)@),
{
    let ghost kept = consistent(old(store)@);
    let registrar = Authority {
        id: authority.clone(),
        reports_reviewed: Vec::new(),
        approval_rate_bits: 0,
    };
    proof {
        if kept {
            registration_keeps_consistency(store@, registrar@);
        }
    }
    add_authority(store, registrar);
    proof {
        if kept {
            new_account_keeps_consistency(store@, first@, 500);
        }
    }
    create_or_update_user(store, User::with_balance(first.clone(), 500));
    proof {
        if kept {
            new_account_keeps_consistency(store@, second@, 750);
        }
    }
    create_or_update_user(store, User::with_balance(second.clone(), 750));
    proof {
        if kept {
            new_account_keeps_consistency(store@, third@, 1000);
        }
    }
    create_or_update_user(store, User::with_balance(third.clone(), 1000));
    assert(escrows_within(store@, first@, second@, third@, 0));
    assert(kept ==> consistent(store@));

    let report1 = build_report(
        "Environmental Dumping Near River",
        "Multiple industrial containers being dumped in the river near manufacturing zone. Activity observed between 2-4 AM with trucks bearing no license plates.",
        "environmental",
        now - DAY_NS * 5,
        "2025-04-21",
        "Near Industrial Zone, South River Bank",
        0x403497fcb923a29c,
        0x4053bda027525461,
        &first,
        3,
        15,
    );
    let report1_id = stake_report(store, &report1);
    assert(escrows_within(store@, first@, second@, third@, 15));

    let report2 = build_report(
        "Suspicious Financial Activity",
        "Unusual pattern of transactions from multiple accounts feeding into offshore accounts. Potential money laundering scheme involving local businesses.",
        "fraud",
        now - DAY_NS * 4,
        "2025-04-22",
        "Financial District, Downtown",
        0x40331374bc6a7efa,
        0x4052382c3c9eecc0,
        &second,
        1,
        20,
    );
    let report2_id = stake_report(store, &report2);
    assert(escrows_within(store@, first@, second@, third@, 35));

    let report3 = build_report(
        "Cyber Attack Attempt",
        "Multiple unauthorized access attempts to government database detected. IP addresses traced to foreign servers. Advanced techniques used to bypass security.",
        "cybercrime",
        now - DAY_NS * 3,
        "2025-04-23",
        "Online - Multiple IP addresses",
        0x403c9d288ce703b0,
        0x40534d604189374c,
        &third,
        5,
        10,
    );
    let report3_id = stake_report(store, &report3);
    assert(escrows_within(store@, first@, second@, third@, 45));

    let report4 = build_report(
        "Counterfeit Products Distribution",
        "Large scale counterfeit luxury goods being sold in local markets. Products have fake authentication certificates and packaging.",
        "fraud",
        now - DAY_NS * 30,
        "2025-03-24",
        "Main Market Area, City Center",
        0x402a2a57a786c227,
        0x405411532617c1be,
        &first,
        2,
        5,
    );
    let report4_id = stake_report(store, &report4);
    assert(escrows_within(store@, first@, second@, third@, 50));

    let report5 = build_report(
        "Illegal Waste Disposal",
        "Company disposing hazardous waste in protected area during night hours. Chemical waste being buried in plastic containers.",
        "environmental",
        now - DAY_NS * 34,
        "2025-03-23",
        "Protected Forest Area, Northern Region",
        0x40410ab6ae7d566d,
        0x4052b306f6944674,
        &third,
        4,
        25,
    );
    let report5_id = stake_report(store, &report5);
    assert(escrows_within(store@, first@, second@, third@, 75));

    let message1 = build_message(
        report1_id,
        MessageSender::Reporter(first),
        "I have submitted additional evidence via email.",
        now - DAY_NS,
    );
    let message2 = build_message(
        report1_id,
        MessageSender::Authority(authority),
        "Thank you for your report. We will investigate this matter.",
        now - DAY_NS / 2,
    );
    let message3 = build_message(
        report3_id,
        MessageSender::Reporter(third),
        "I have the server logs available if needed.",
        now - DAY_NS * 2,
    );
    proof {
        if kept {
            message_keeps_consistency(store@, message1@);
        }
    }
    create_message(store, &message1);
    proof {
        if kept {
            message_keeps_consistency(store@, message2@);
        }
    }
    create_message(store, &message2);
    proof {
        if kept {
            message_keeps_consistency(store@, message3@);
        }
    }
    create_message(store, &message3);
}

/// Puts the seed data into a store that holds no report; leaves any other
/// store as it is. The identities are those that the seed texts stand for,
/// the anonymous one for a text that is no principal.
pub fn initialize_mock_data(store: &mut Store, now: u64)
    requires
        old(store).wf(),
        old(store)@.reports.len() == 0 ==> mock_data_fits(old(store)@, now),
    ensures
        final(store).wf(),
        final(store)@ == if old(store)@.reports.len() > 0 {
            old(store)@
        } else {
            with_mock_data(old(store)@, now)
        },
        consistent(old(store)@) ==> consistent(final(store)@),
{
    if report_count(store) > 0 {
        return ;
    }
    let authority = Identity::from_text_or_anonymous(
        "d27x5-vpdgv-xg4ve-woszp-ulej4-4hlq4-xrlwz-nyedm-rtjsa-a2d2z-oqe",
    );
    let first = Identity::from_text_or_anonymous("2vxsx-fae");
    let second = Identity::from_text_or_anonymous("3dkmc-byamr-3ypol-hgppr-645za-wxgml-ba5t2-a");
    let third = Identity::from_text_or_anonymous("2ibo7-dia");
    seed_ledger(store, authority, first, second, third, now);
}

} // verus!
