//! The entity store: reports, users, authorities, messages and evidence,
//! with the id counters and the statistics record.
//!
//! The rows of each table live in a vector, and every table is found
//! through a stable B-tree index from key to row position: reports, messages
//! and evidence files by id, users and authorities by identity. Reports,
//! messages and evidence files are never deleted and get their ids in order,
//! so row `i` has id `i + 1` and the next id of a table is its length plus
//! one.

use crate::authority::identity::{copy_bytes, Identity};
use crate::authority::invariants::{consistent, transfer_keeps_consistency};
use crate::authority::index::{
    dense_index, id_entries, id_index_get, id_index_insert, id_index_len, id_index_new,
    id_index_walk, index_contains, index_entries, index_get, index_insert, index_new,
    lemma_dense_count, lemma_walk_at, lemma_walk_len, walked_in_order, IdIndex, IdentityIndex,
};
use crate::authority::types::{
    fresh_user, Authority, AuthorityStats, AuthorityView, EvidenceFile, EvidenceFileView,
    LedgerError, Message, MessageView, Missing, Report, ReportStatus, ReportView, RewardConfig,
    User, UserView,
};
use std::collections::HashMap;
use vstd::prelude::*;

verus! {

/// The views of a run of report rows.
pub open spec fn report_views(rows: Seq<Report>) -> Seq<ReportView> {
    rows.map_values(|r: Report| r@)
}

/// The views of a run of message rows.
pub open spec fn message_views(rows: Seq<Message>) -> Seq<MessageView> {
    rows.map_values(|m: Message| m@)
}

/// The views of a run of evidence rows.
pub open spec fn evidence_views(rows: Seq<EvidenceFile>) -> Seq<EvidenceFileView> {
    rows.map_values(|e: EvidenceFile| e@)
}

/// The views of a run of user rows.
pub open spec fn user_views(rows: Seq<User>) -> Seq<UserView> {
    rows.map_values(|u: User| u@)
}

/// The views of a run of authority rows.
pub open spec fn authority_views(rows: Seq<Authority>) -> Seq<AuthorityView> {
    rows.map_values(|a: Authority| a@)
}

/// The list holds every user on record, each once.
pub open spec fn lists_users(listed: Seq<UserView>, users: Map<Seq<u8>, UserView>) -> bool {
    &&& forall|i: int|
        0 <= i < listed.len() ==> users.contains_key((#[trigger] listed[i]).id) && users[listed[i].id]
            == listed[i]
    &&& forall|k: Seq<u8>| #[trigger]
        users.contains_key(k) ==> exists|i: int| 0 <= i < listed.len() && listed[i].id == k
    &&& forall|i: int, j: int| 0 <= i < j < listed.len() ==> listed[i].id != listed[j].id
}

/// The list holds every authority on record, each once.
pub open spec fn lists_authorities(
    listed: Seq<AuthorityView>,
    authorities: Map<Seq<u8>, AuthorityView>,
) -> bool {
    &&& forall|i: int|
        0 <= i < listed.len() ==> authorities.contains_key((#[trigger] listed[i]).id)
            && authorities[listed[i].id] == listed[i]
    &&& forall|k: Seq<u8>| #[trigger]
        authorities.contains_key(k) ==> exists|i: int| 0 <= i < listed.len() && listed[i].id == k
    &&& forall|i: int, j: int| 0 <= i < j < listed.len() ==> listed[i].id != listed[j].id
}

/// The view of an optional report.
pub open spec fn found_report(report: Option<Report>) -> Option<ReportView> {
    match report {
        Some(r) => Some(r@),
        None => None,
    }
}

/// The view of an optional user.
pub open spec fn found_user(user: Option<User>) -> Option<UserView> {
    match user {
        Some(u) => Some(u@),
        None => None,
    }
}

/// The view of an optional evidence file.
pub open spec fn found_evidence(file: Option<EvidenceFile>) -> Option<EvidenceFileView> {
    match file {
        Some(e) => Some(e@),
        None => None,
    }
}

/// Holds of the reports in a given status.
pub open spec fn has_status(status: ReportStatus) -> spec_fn(ReportView) -> bool {
    |r: ReportView| r.status == status
}

/// Holds of the reports that a given identity submitted.
pub open spec fn submitted_by(who: Seq<u8>) -> spec_fn(ReportView) -> bool {
    |r: ReportView| r.submitter_id == who
}

/// Holds of the messages that belong to a given report.
pub open spec fn in_thread(report_id: u64) -> spec_fn(MessageView) -> bool {
    |m: MessageView| m.report_id == report_id
}

/// The conversation of a report: its messages in the order they were posted.
pub open spec fn thread_of(messages: Seq<MessageView>, report_id: u64) -> Seq<MessageView> {
    messages.filter(in_thread(report_id))
}

/// No user at all.
pub open spec fn no_users() -> Map<Seq<u8>, UserView> {
    Map::empty()
}

/// No authority at all.
pub open spec fn no_authorities() -> Map<Seq<u8>, AuthorityView> {
    Map::empty()
}

/// The statistics at the start: nothing counted.
pub open spec fn no_stats() -> AuthorityStats {
    AuthorityStats {
        reports_pending: 0,
        reports_verified: 0,
        reports_rejected: 0,
        total_rewards_distributed: 0,
    }
}

/// The staking policy at the start: rewards of ten times the stake, stakes
/// of at least 5 and nominally at most 100.
pub open spec fn default_config() -> RewardConfig {
    RewardConfig { reward_multiplier: 10, min_stake_amount: 5, max_stake_amount: 100 }
}

/// The count of reports in a status that the statistics keep, if they keep
/// one: pending, verified (approved) and rejected have a bucket.
pub open spec fn bucket(stats: AuthorityStats, status: ReportStatus) -> Option<u64> {
    match status {
        ReportStatus::Pending => Some(stats.reports_pending),
        ReportStatus::Approved => Some(stats.reports_verified),
        ReportStatus::Rejected => Some(stats.reports_rejected),
        ReportStatus::UnderReview => None,
    }
}

/// The statistics with the bucket of a status changed by `delta`.
pub open spec fn bucket_moved(stats: AuthorityStats, status: ReportStatus, delta: int)
    -> AuthorityStats {
    match status {
        ReportStatus::Pending => AuthorityStats {
            reports_pending: (stats.reports_pending + delta) as u64,
            ..stats
        },
        ReportStatus::Approved => AuthorityStats {
            reports_verified: (stats.reports_verified + delta) as u64,
            ..stats
        },
        ReportStatus::Rejected => AuthorityStats {
            reports_rejected: (stats.reports_rejected + delta) as u64,
            ..stats
        },
        ReportStatus::UnderReview => stats,
    }
}

/// The statistics after a report went from one status to another: one unit
/// leaves the old bucket and enters the new one; nothing moves where the
/// status stays.
pub open spec fn status_changed(stats: AuthorityStats, from: ReportStatus, to: ReportStatus)
    -> AuthorityStats {
    if from == to {
        stats
    } else {
        bucket_moved(bucket_moved(stats, from, -1), to, 1)
    }
}

/// Whether the statistics can record that change within `u64`.
pub open spec fn status_change_fits(stats: AuthorityStats, from: ReportStatus, to: ReportStatus)
    -> bool {
    from != to ==> {
        &&& bucket(stats, from) != Some(0u64)
        &&& bucket(bucket_moved(stats, from, -1), to) != Some(u64::MAX)
    }
}

/// What the store holds, as mathematics.
pub struct StoreView {
    /// The reports; row `i` has id `i + 1`.
    pub reports: Seq<ReportView>,
    /// The users by identity.
    pub users: Map<Seq<u8>, UserView>,
    /// The authority registry by identity.
    pub authorities: Map<Seq<u8>, AuthorityView>,
    /// The messages; row `i` has id `i + 1`.
    pub messages: Seq<MessageView>,
    /// The evidence files; row `i` has id `i + 1`.
    pub evidence: Seq<EvidenceFileView>,
    /// The statistics record.
    pub stats: AuthorityStats,
    /// The staking policy.
    pub config: RewardConfig,
}

impl StoreView {
    /// Every row carries the id of its place, and every keyed record its key.
    pub open spec fn well_formed(self) -> bool {
        &&& forall|i: int|
            0 <= i < self.reports.len() ==> (#[trigger] self.reports[i]).id == i + 1
        &&& forall|i: int|
            0 <= i < self.messages.len() ==> (#[trigger] self.messages[i]).id == i + 1
        &&& forall|i: int|
            0 <= i < self.evidence.len() ==> (#[trigger] self.evidence[i]).id == i + 1
        &&& forall|k: Seq<u8>| self.users.contains_key(k) ==> (#[trigger] self.users[k]).id == k
        &&& forall|k: Seq<u8>|
            self.authorities.contains_key(k) ==> (#[trigger] self.authorities[k]).id == k
    }

    /// The id that the next report gets.
    pub open spec fn next_report_id(self) -> nat {
        self.reports.len() + 1
    }

    /// The id that the next message gets.
    pub open spec fn next_message_id(self) -> nat {
        self.messages.len() + 1
    }

    /// The id that the next evidence file gets.
    pub open spec fn next_evidence_id(self) -> nat {
        self.evidence.len() + 1
    }

    /// The report with the given id.
    pub open spec fn report(self, id: u64) -> Option<ReportView> {
        if 1 <= id <= self.reports.len() {
            Some(self.reports[id - 1])
        } else {
            None
        }
    }

    /// The user with the given identity.
    pub open spec fn user(self, id: Seq<u8>) -> Option<UserView> {
        if self.users.contains_key(id) {
            Some(self.users[id])
        } else {
            None
        }
    }

    /// The evidence file with the given id.
    pub open spec fn evidence_file(self, id: u64) -> Option<EvidenceFileView> {
        if 1 <= id <= self.evidence.len() {
            Some(self.evidence[id - 1])
        } else {
            None
        }
    }

    /// The store after a report was created: it gets the next id and counts
    /// as pending.
    pub open spec fn with_new_report(self, report: ReportView) -> StoreView {
        StoreView {
            reports: self.reports.push(
                ReportView { id: self.next_report_id() as u64, ..report },
            ),
            stats: AuthorityStats {
                reports_pending: (self.stats.reports_pending + 1) as u64,
                ..self.stats
            },
            ..self
        }
    }

    /// The store after the report with the id of `report` was replaced by
    /// it, the statistics following its status.
    pub open spec fn with_report(self, report: ReportView) -> StoreView {
        StoreView {
            reports: self.reports.update(report.id - 1, report),
            stats: status_changed(
                self.stats,
                self.reports[report.id - 1].status,
                report.status,
            ),
            ..self
        }
    }

    /// The store after a user record was written under its identity.
    pub open spec fn with_user(self, user: UserView) -> StoreView {
        StoreView { users: self.users.insert(user.id, user), ..self }
    }

    /// The store after an authority record was written under its identity.
    pub open spec fn with_authority(self, authority: AuthorityView) -> StoreView {
        StoreView { authorities: self.authorities.insert(authority.id, authority), ..self }
    }

    /// The store after a message was appended: it gets the next id.
    pub open spec fn with_new_message(self, message: MessageView) -> StoreView {
        StoreView {
            messages: self.messages.push(
                MessageView { id: self.next_message_id() as u64, ..message },
            ),
            ..self
        }
    }

    /// The store after an evidence file was added: it gets the next id.
    pub open spec fn with_new_evidence(self, file: EvidenceFileView) -> StoreView {
        StoreView {
            evidence: self.evidence.push(
                EvidenceFileView { id: self.next_evidence_id() as u64, ..file },
            ),
            ..self
        }
    }

    /// The store with the statistics record replaced.
    pub open spec fn with_stats(self, stats: AuthorityStats) -> StoreView {
        StoreView { stats, ..self }
    }
}

/// The ids listed for a report in the thread index.
pub open spec fn listed_ids(threads: Map<u64, Vec<u64>>, report_id: u64) -> Seq<u64> {
    if threads.contains_key(report_id) {
        threads[report_id]@
    } else {
        Seq::empty()
    }
}

/// The ids of a run of messages.
pub open spec fn ids_of(messages: Seq<MessageView>) -> Seq<u64> {
    messages.map_values(|m: MessageView| m.id)
}

/// The entity store.
pub struct Store {
    reports: Vec<Report>,
    report_index: IdIndex,
    users: Vec<User>,
    user_index: IdentityIndex,
    authorities: Vec<Authority>,
    authority_index: IdentityIndex,
    messages: Vec<Message>,
    message_index: IdIndex,
    threads: HashMap<u64, Vec<u64>>,
    evidence: Vec<EvidenceFile>,
    evidence_index: IdIndex,
    stats: AuthorityStats,
    config: RewardConfig,
}

impl View for Store {
    type V = StoreView;

    closed spec fn view(&self) -> StoreView {
        StoreView {
            reports: report_views(self.reports@),
            users: Map::new(
                |k: Seq<u8>| index_entries(self.user_index).contains_key(k),
                |k: Seq<u8>| self.users@[index_entries(self.user_index)[k] as int]@,
            ),
            authorities: Map::new(
                |k: Seq<u8>| index_entries(self.authority_index).contains_key(k),
                |k: Seq<u8>| self.authorities@[index_entries(self.authority_index)[k] as int]@,
            ),
            messages: message_views(self.messages@),
            evidence: evidence_views(self.evidence@),
            stats: self.stats,
            config: self.config,
        }
    }
}

impl Store {
    /// Every index points at the rows of its keys, and the thread index
    /// lists for each report the ids of its messages in order.
    pub closed spec fn inv(&self) -> bool {
        &&& dense_index(id_entries(self.report_index), self.reports@.len())
        &&& dense_index(id_entries(self.message_index), self.messages@.len())
        &&& dense_index(id_entries(self.evidence_index), self.evidence@.len())
        &&& forall|k: Seq<u8>| #[trigger]
            index_entries(self.user_index).contains_key(k) ==> {
                &&& index_entries(self.user_index)[k] < self.users@.len()
                &&& self.users@[index_entries(self.user_index)[k] as int]@.id == k
            }
        &&& forall|k: Seq<u8>| #[trigger]
            index_entries(self.authority_index).contains_key(k) ==> {
                &&& index_entries(self.authority_index)[k] < self.authorities@.len()
                &&& self.authorities@[index_entries(self.authority_index)[k] as int]@.id == k
            }
        &&& forall|i: int|
            0 <= i < self.users@.len() ==> {
                &&& index_entries(self.user_index).contains_key((#[trigger] self.users@[i])@.id)
                &&& index_entries(self.user_index)[self.users@[i]@.id] == i
            }
        &&& forall|i: int|
            0 <= i < self.authorities@.len() ==> {
                &&& index_entries(self.authority_index).contains_key(
                    (#[trigger] self.authorities@[i])@.id,
                )
                &&& index_entries(self.authority_index)[self.authorities@[i]@.id] == i
            }
        &&& forall|r: u64|
            #[trigger] listed_ids(self.threads@, r) == ids_of(
                thread_of(message_views(self.messages@), r),
            )
    }

    /// The store is well formed: its indexes agree with its rows, and its
    /// records carry their keys.
    pub open spec fn wf(&self) -> bool {
        self.inv() && self@.well_formed()
    }

    /// An empty store with the default policy.
    pub fn new() -> (store: Store)
        ensures
            store.wf(),
            store@.reports.len() == 0,
            store@.users == no_users(),
            store@.authorities == no_authorities(),
            store@.messages.len() == 0,
            store@.evidence.len() == 0,
            store@.stats == no_stats(),
            store@.config == default_config(),
            consistent(store@),
    {
        let store = Store {
            reports: Vec::new(),
            report_index: id_index_new(),
            users: Vec::new(),
            user_index: index_new(),
            authorities: Vec::new(),
            authority_index: index_new(),
            messages: Vec::new(),
            message_index: id_index_new(),
            threads: HashMap::new(),
            evidence: Vec::new(),
            evidence_index: id_index_new(),
            stats: AuthorityStats {
                reports_pending: 0,
                reports_verified: 0,
                reports_rejected: 0,
                total_rewards_distributed: 0,
            },
            config: RewardConfig {
                reward_multiplier: 10,
                min_stake_amount: 5,
                max_stake_amount: 100,
            },
        };
        proof {
            reveal(Seq::filter);
            assert(store@.users =~= no_users());
            assert(store@.authorities =~= no_authorities());
            assert forall|r: u64|
                #[trigger] listed_ids(store.threads@, r) == ids_of(
                    thread_of(message_views(store.messages@), r),
                ) by {
                assert(message_views(store.messages@).len() == 0);
                assert(ids_of(thread_of(message_views(store.messages@), r)) =~= Seq::<
                    u64,
                >::empty());
            }
        }
        store
    }
}

/// Filtering a sequence with one more element: the element joins the result
/// exactly if the predicate holds of it.
pub proof fn lemma_filter_push<A>(s: Seq<A>, pred: spec_fn(A) -> bool, x: A)
    ensures
        s.push(x).filter(pred) == if pred(x) {
            s.filter(pred).push(x)
        } else {
            s.filter(pred)
        },
{
    reveal(Seq::filter);
    assert(s.push(x).drop_last() =~= s);
}

/// Filtering a prefix that is one element longer.
pub proof fn lemma_filter_take<A>(s: Seq<A>, pred: spec_fn(A) -> bool, i: int)
    requires
        0 <= i < s.len(),
    ensures
        s.take(i + 1).filter(pred) == if pred(s[i]) {
            s.take(i).filter(pred).push(s[i])
        } else {
            s.take(i).filter(pred)
        },
{
    assert(s.take(i + 1) =~= s.take(i).push(s[i]));
    lemma_filter_push(s.take(i), pred, s[i]);
}

impl AuthorityStats {
    /// The statistics after a report was created: one more pending.
    pub fn on_report_created(self) -> (r: AuthorityStats)
        requires
            self.reports_pending < u64::MAX,
        ensures
            r == bucket_moved(self, ReportStatus::Pending, 1),
    {
        AuthorityStats { reports_pending: self.reports_pending + 1, ..self }
    }

    /// The statistics after a report went from one status to another.
    pub fn on_status_change(self, from: ReportStatus, to: ReportStatus) -> (r: AuthorityStats)
        requires
            status_change_fits(self, from, to),
        ensures
            r == status_changed(self, from, to),
    {
        if from == to {
            return self;
        }
        let mut stats = self;
        match from {
            ReportStatus::Pending => {
                stats.reports_pending = stats.reports_pending - 1;
            },
            ReportStatus::Approved => {
                stats.reports_verified = stats.reports_verified - 1;
            },
            ReportStatus::Rejected => {
                stats.reports_rejected = stats.reports_rejected - 1;
            },
            ReportStatus::UnderReview => {},
        }
        match to {
            ReportStatus::Pending => {
                stats.reports_pending = stats.reports_pending + 1;
            },
            ReportStatus::Approved => {
                stats.reports_verified = stats.reports_verified + 1;
            },
            ReportStatus::Rejected => {
                stats.reports_rejected = stats.reports_rejected + 1;
            },
            ReportStatus::UnderReview => {},
        }
        stats
    }

    /// The statistics after a reward was paid.
    pub fn on_reward_paid(self, amount: u64) -> (r: AuthorityStats)
        requires
            self.total_rewards_distributed + amount <= u64::MAX,
        ensures
            r == (AuthorityStats {
                total_rewards_distributed: (self.total_rewards_distributed + amount) as u64,
                ..self
            }),
    {
        AuthorityStats {
            total_rewards_distributed: self.total_rewards_distributed + amount,
            ..self
        }
    }
}

/// Stores a copy of the report under the next id, counts it as pending and
/// returns the id. The id that the report carries is ignored.
pub fn create_report(store: &mut Store, report: &Report) -> (id: u64)
    requires
        old(store).wf(),
        old(store)@.next_report_id() <= u64::MAX,
        old(store)@.stats.reports_pending < u64::MAX,
    ensures
        final(store).wf(),
        id == old(store)@.next_report_id(),
        final(store)@ == old(store)@.with_new_report(report@),
{
    let position: u64 = store.reports.len() as u64;
    let id: u64 = position + 1;
    let mut row = report.clone();
    row.id = id;
    store.reports.push(row);
    id_index_insert(&mut store.report_index, id, position);
    store.stats = store.stats.on_report_created();
    proof {
        assert(final(store)@.reports =~= old(store)@.with_new_report(report@).reports);
        assert(final(store)@.users =~= old(store)@.users);
        assert(final(store)@.authorities =~= old(store)@.authorities);
    }
    id
}

/// The report with the given id, if there is one.
pub fn get_report(store: &Store, id: u64) -> (r: Option<Report>)
    requires
        store.wf(),
    ensures
        found_report(r) == store@.report(id),
{
    match id_index_get(&store.report_index, id) {
        Some(position) => {
            let rows = store.reports.len();
            proof {
                assert(id_entries(store.report_index).contains_key(id));
                assert(position < rows);
            }
            Some(store.reports[position as usize].clone())
        },
        None => None,
    }
}

/// All reports, by id.
pub fn get_all_reports(store: &Store) -> (r: Vec<Report>)
    requires
        store.wf(),
    ensures
        report_views(r@) == store@.reports,
{
    let pairs = id_index_walk(&store.report_index);
    let rows = store.reports.len();
    proof {
        lemma_walk_len(pairs@, id_entries(store.report_index), rows as nat);
    }
    let mut out: Vec<Report> = Vec::new();
    let mut i: usize = 0;
    while i < pairs.len()
        invariant
            i <= pairs.len(),
            pairs.len() == store.reports.len(),
            rows == store.reports.len(),
            dense_index(id_entries(store.report_index), rows as nat),
            walked_in_order(pairs@, id_entries(store.report_index)),
            report_views(out@) == report_views(store.reports@).take(i as int),
        decreases pairs.len() - i,
    {
        proof {
            lemma_walk_at(pairs@, id_entries(store.report_index), rows as nat, i as int);
        }
        let position = pairs[i].1;
        let ghost before = out@;
        out.push(store.reports[position as usize].clone());
        proof {
            assert(report_views(out@) =~= report_views(before).push(store.reports@[i as int]@));
            assert(report_views(store.reports@).take(i + 1) =~= report_views(
                store.reports@,
            ).take(i as int).push(store.reports@[i as int]@));
        }
        i += 1;
    }
    proof {
        assert(report_views(store.reports@).take(i as int) =~= report_views(store.reports@));
    }
    out
}

/// The reports in the given status, by id.
pub fn get_reports_by_status(store: &Store, status: ReportStatus) -> (r: Vec<Report>)
    requires
        store.wf(),
    ensures
        report_views(r@) == store@.reports.filter(has_status(status)),
{
    let mut out: Vec<Report> = Vec::new();
    let mut i: usize = 0;
    proof {
        reveal(Seq::filter);
        assert(report_views(out@) =~= report_views(store.reports@).take(0).filter(
            has_status(status),
        ));
    }
    let pairs = id_index_walk(&store.report_index);
    let rows = store.reports.len();
    proof {
        lemma_walk_len(pairs@, id_entries(store.report_index), rows as nat);
    }
    while i < pairs.len()
        invariant
            i <= pairs.len(),
            pairs.len() == store.reports.len(),
            rows == store.reports.len(),
            dense_index(id_entries(store.report_index), rows as nat),
            walked_in_order(pairs@, id_entries(store.report_index)),
            report_views(out@) == report_views(store.reports@).take(i as int).filter(
                has_status(status),
            ),
        decreases pairs.len() - i,
    {
        proof {
            lemma_walk_at(pairs@, id_entries(store.report_index), rows as nat, i as int);
            lemma_filter_take(report_views(store.reports@), has_status(status), i as int);
        }
        let at: usize = pairs[i].1 as usize;
        if store.reports[at].status == status {
            out.push(store.reports[at].clone());
            proof {
                assert(report_views(out@) =~= report_views(store.reports@).take(
                    i as int,
                ).filter(has_status(status)).push(store.reports@[i as int]@));
            }
        }
        i += 1;
    }
    proof {
        assert(report_views(store.reports@).take(i as int) =~= report_views(store.reports@));
    }
    out
}

/// Replaces the report that has the id of `report`, and moves one unit of
/// the statistics from its old status to the new one. `NotFound` where no
/// report has that id.
pub fn update_report(store: &mut Store, report: Report) -> (result: Result<(), LedgerError>)
    requires
        old(store).wf(),
        old(store)@.report(report.id) matches Some(current) ==> status_change_fits(
            old(store)@.stats,
            current.status,
            report.status,
        ),
    ensures
        final(store).wf(),
        match result {
            Ok(_) => old(store)@.report(report.id).is_some() && final(store)@ == old(
                store,
            )@.with_report(report@),
            Err(e) => e == LedgerError::NotFound(Missing::Report) && old(store)@.report(
                report.id,
            ).is_none() && final(store)@ == old(store)@,
        },
{
    let id = report.id;
    let rows = store.reports.len();
    let at: usize = match id_index_get(&store.report_index, id) {
        Some(position) => {
            proof {
                assert(id_entries(store.report_index).contains_key(id));
                assert(position < rows);
            }
            position as usize
        },
        None => {
            return Err(LedgerError::NotFound(Missing::Report));
        },
    };
    let before = store.reports[at].status;
    store.stats = store.stats.on_status_change(before, report.status);
    let ghost after = report@;
    store.reports.set(at, report);
    proof {
        assert(final(store)@.reports =~= old(store)@.with_report(after).reports);
        assert(final(store)@.users =~= old(store)@.users);
        assert(final(store)@.authorities =~= old(store)@.authorities);
    }
    Ok(())
}

/// The reports that the given identity submitted, by id.
pub fn get_user_reports(store: &Store, user_id: &Identity) -> (r: Vec<Report>)
    requires
        store.wf(),
    ensures
        report_views(r@) == store@.reports.filter(submitted_by(user_id@)),
{
    let mut out: Vec<Report> = Vec::new();
    let mut i: usize = 0;
    proof {
        reveal(Seq::filter);
        assert(report_views(out@) =~= report_views(store.reports@).take(0).filter(
            submitted_by(user_id@),
        ));
    }
    let pairs = id_index_walk(&store.report_index);
    let rows = store.reports.len();
    proof {
        lemma_walk_len(pairs@, id_entries(store.report_index), rows as nat);
    }
    while i < pairs.len()
        invariant
            i <= pairs.len(),
            pairs.len() == store.reports.len(),
            rows == store.reports.len(),
            dense_index(id_entries(store.report_index), rows as nat),
            walked_in_order(pairs@, id_entries(store.report_index)),
            report_views(out@) == report_views(store.reports@).take(i as int).filter(
                submitted_by(user_id@),
            ),
        decreases pairs.len() - i,
    {
        proof {
            lemma_walk_at(pairs@, id_entries(store.report_index), rows as nat, i as int);
            lemma_filter_take(report_views(store.reports@), submitted_by(user_id@), i as int);
        }
        let at: usize = pairs[i].1 as usize;
        if store.reports[at].submitter_id == *user_id {
            out.push(store.reports[at].clone());
            proof {
                assert(report_views(out@) =~= report_views(store.reports@).take(
                    i as int,
                ).filter(submitted_by(user_id@)).push(store.reports@[i as int]@));
            }
        }
        i += 1;
    }
    proof {
        assert(report_views(store.reports@).take(i as int) =~= report_views(store.reports@));
    }
    out
}

/// The user record of the given identity, if there is one.
pub fn get_user(store: &Store, id: &Identity) -> (r: Option<User>)
    requires
        store.wf(),
    ensures
        found_user(r) == store@.user(id@),
{
    match index_get(&store.user_index, id.as_bytes()) {
        Some(position) => {
            let rows = store.users.len();
            proof {
                assert(index_entries(store.user_index).contains_key(id@));
                assert(position < rows);
            }
            Some(store.users[position as usize].clone())
        },
        None => None,
    }
}

/// Writes the user record under its identity, replacing the one that was
/// there.
pub fn create_or_update_user(store: &mut Store, user: User)
    requires
        old(store).wf(),
    ensures
        final(store).wf(),
        final(store)@ == old(store)@.with_user(user@),
{
    let ghost written = user@;
    let key = copy_bytes(user.id.as_bytes());
    match index_get(&store.user_index, &key) {
        Some(position) => {
            let rows = store.users.len();
            proof {
                assert(index_entries(store.user_index).contains_key(key@));
                assert(position < rows);
            }
            store.users.set(position as usize, user);
        },
        None => {
            let position: u64 = store.users.len() as u64;
            store.users.push(user);
            index_insert(&mut store.user_index, key, position);
        },
    }
    proof {
        assert(final(store)@.users =~= old(store)@.with_user(written).users);
        assert(final(store)@.authorities =~= old(store)@.authorities);
    }
}

/// Whether a transfer goes through, and why not where it does not.
pub open spec fn transfer_outcome(s: StoreView, from: Seq<u8>, amount: u64) -> Result<
    (),
    LedgerError,
> {
    match s.user(from) {
        None => Err(LedgerError::NotFound(Missing::SourceUser)),
        Some(source) => if source.token_balance < amount {
            Err(LedgerError::InsufficientBalance)
        } else {
            Ok(())
        },
    }
}

/// The account that receives a transfer: the one on record, or a new one
/// with nothing in it.
pub open spec fn receiving_account(s: StoreView, to: Seq<u8>) -> UserView {
    match s.user(to) {
        Some(account) => account,
        None => fresh_user(to, 0),
    }
}

/// The store after the amount left the sending account.
pub open spec fn debited(s: StoreView, from: Seq<u8>, amount: u64) -> StoreView {
    let source = s.users[from];
    s.with_user(UserView { token_balance: (source.token_balance - amount) as u64, ..source })
}

/// The store after a transfer that went through: the amount left the
/// sending account and then arrived at the receiving one, as that account
/// stands after the debit. A transfer to oneself so gives back what it took.
pub open spec fn after_transfer(s: StoreView, from: Seq<u8>, to: Seq<u8>, amount: u64)
    -> StoreView {
    let sent = debited(s, from, amount);
    let target = receiving_account(sent, to);
    sent.with_user(UserView { token_balance: (target.token_balance + amount) as u64, ..target })
}

/// Whether the receiving balance stays within `u64` when the amount
/// arrives.
pub open spec fn transfer_fits(s: StoreView, from: Seq<u8>, to: Seq<u8>, amount: u64) -> bool {
    receiving_account(debited(s, from, amount), to).token_balance + amount <= u64::MAX
}

/// Moves tokens from one account to another, creating the receiving account
/// where there is none. `NotFound` where the sender has no account,
/// `InsufficientBalance` where it holds less than the amount. A transfer to
/// oneself that goes through changes nothing.
pub fn transfer_tokens(store: &mut Store, from: &Identity, to: &Identity, amount: u64) -> (result:
    Result<(), LedgerError>)
    requires
        old(store).wf(),
        transfer_outcome(old(store)@, from@, amount).is_ok() ==> transfer_fits(
            old(store)@,
            from@,
            to@,
            amount,
        ),
    ensures
        final(store).wf(),
        result == transfer_outcome(old(store)@, from@, amount),
        result.is_ok() ==> final(store)@ == after_transfer(old(store)@, from@, to@, amount),
        result.is_ok() && from@ == to@ ==> final(store)@ == old(store)@,
        result.is_err() ==> final(store)@ == old(store)@,
        consistent(old(store)@) ==> consistent(final(store)@),
{
    let source = match get_user(store, from) {
        Some(user) => user,
        None => {
            return Err(LedgerError::NotFound(Missing::SourceUser));
        },
    };
    if source.token_balance < amount {
        return Err(LedgerError::InsufficientBalance);
    }
    let mut source_updated = source;
    source_updated.token_balance = source_updated.token_balance - amount;
    create_or_update_user(store, source_updated);
    let target = match get_user(store, to) {
        Some(user) => user,
        None => User::with_balance(to.clone(), 0),
    };
    let mut target_updated = target;
    target_updated.token_balance = target_updated.token_balance + amount;
    create_or_update_user(store, target_updated);
    proof {
        lemma_transfer_to_oneself(old(store)@, from@, amount);
        if consistent(old(store)@) {
            transfer_keeps_consistency(old(store)@, from@, to@, amount);
        }
    }
    Ok(())
}

/// A transfer to oneself that goes through leaves the store as it was.
pub proof fn lemma_transfer_to_oneself(s: StoreView, who: Seq<u8>, amount: u64)
    requires
        s.well_formed(),
        transfer_outcome(s, who, amount).is_ok(),
    ensures
        transfer_fits(s, who, who, amount),
        after_transfer(s, who, who, amount) == s,
{
    assert(after_transfer(s, who, who, amount).users =~= s.users);
}

/// Whether the identity is in the authority registry.
pub fn is_authority(store: &Store, id: &Identity) -> (r: bool)
    requires
        store.wf(),
    ensures
        r == store@.authorities.contains_key(id@),
{
    index_contains(&store.authority_index, id.as_bytes())
}

/// Writes the authority record under its identity, replacing the one that
/// was there.
pub fn add_authority(store: &mut Store, authority: Authority)
    requires
        old(store).wf(),
    ensures
        final(store).wf(),
        final(store)@ == old(store)@.with_authority(authority@),
{
    let ghost written = authority@;
    let key = copy_bytes(authority.id.as_bytes());
    match index_get(&store.authority_index, &key) {
        Some(position) => {
            let rows = store.authorities.len();
            proof {
                assert(index_entries(store.authority_index).contains_key(key@));
                assert(position < rows);
            }
            store.authorities.set(position as usize, authority);
        },
        None => {
            let position: u64 = store.authorities.len() as u64;
            store.authorities.push(authority);
            index_insert(&mut store.authority_index, key, position);
        },
    }
    proof {
        assert(final(store)@.authorities =~= old(store)@.with_authority(written).authorities);
        assert(final(store)@.users =~= old(store)@.users);
    }
}

/// Every message of a thread is a row of the table, at the place its id
/// names.
pub proof fn lemma_thread_member(messages: Seq<MessageView>, report_id: u64, j: int)
    requires
        forall|i: int| 0 <= i < messages.len() ==> (#[trigger] messages[i]).id == i + 1,
        0 <= j < thread_of(messages, report_id).len(),
    ensures
        1 <= thread_of(messages, report_id)[j].id <= messages.len(),
        messages[thread_of(messages, report_id)[j].id - 1] == thread_of(messages, report_id)[j],
        thread_of(messages, report_id)[j].report_id == report_id,
{
    let thread = thread_of(messages, report_id);
    let member = thread[j];
    assert(thread.contains(member));
    messages.lemma_filter_contains_rev(in_thread(report_id), member);
    let i = choose|i: int| 0 <= i < messages.len() && messages[i] == member;
    assert(messages[i].id == i + 1);
    messages.lemma_filter_pred(in_thread(report_id), j);
}

/// Appends a copy of the message under the next id, lists it in the thread
/// of its report and returns the id. The id that the message carries is
/// ignored.
pub fn create_message(store: &mut Store, message: &Message) -> (id: u64)
    requires
        old(store).wf(),
        old(store)@.next_message_id() <= u64::MAX,
    ensures
        final(store).wf(),
        id == old(store)@.next_message_id(),
        final(store)@ == old(store)@.with_new_message(message@),
{
    broadcast use vstd::std_specs::hash::group_hash_axioms;

    let position: u64 = store.messages.len() as u64;
    let id: u64 = position + 1;
    let mut row = message.clone();
    row.id = id;
    let report_id = row.report_id;
    let ghost appended = row@;
    store.messages.push(row);
    id_index_insert(&mut store.message_index, id, position);
    let mut ids: Vec<u64> = match store.threads.remove(&report_id) {
        Some(listed) => listed,
        None => Vec::new(),
    };
    ids.push(id);
    store.threads.insert(report_id, ids);
    proof {
        let before = message_views(old(store).messages@);
        let after = message_views(final(store).messages@);
        assert(after =~= before.push(appended));
        assert(final(store)@.messages =~= old(store)@.with_new_message(message@).messages);
        assert(final(store)@.users =~= old(store)@.users);
        assert(final(store)@.authorities =~= old(store)@.authorities);
        assert forall|r: u64|
            #[trigger] listed_ids(final(store).threads@, r) == ids_of(thread_of(after, r)) by {
            lemma_filter_push(before, in_thread(r), appended);
            assert(listed_ids(old(store).threads@, r) == ids_of(thread_of(before, r)));
            if r == report_id {
                assert(ids_of(thread_of(before, r).push(appended)) =~= ids_of(
                    thread_of(before, r),
                ).push(id));
            }
        }
    }
    id
}

/// The conversation of a report, in the order the messages were posted.
pub fn get_report_messages(store: &Store, report_id: u64) -> (r: Vec<Message>)
    requires
        store.wf(),
    ensures
        message_views(r@) == thread_of(store@.messages, report_id),
{
    broadcast use vstd::std_specs::hash::group_hash_axioms;

    let ghost thread = thread_of(message_views(store.messages@), report_id);
    proof {
        assert(listed_ids(store.threads@, report_id) == ids_of(thread));
    }
    let mut out: Vec<Message> = Vec::new();
    match store.threads.get(&report_id) {
        None => {
            proof {
                assert(message_views(out@) =~= thread);
            }
        },
        Some(ids) => {
            let mut j: usize = 0;
            proof {
                assert(message_views(out@) =~= thread.take(0));
            }
            while j < ids.len()
                invariant
                    store.wf(),
                    j <= ids.len(),
                    ids@ == ids_of(thread),
                    thread == thread_of(message_views(store.messages@), report_id),
                    message_views(out@) == thread.take(j as int),
                decreases ids.len() - j,
            {
                proof {
                    lemma_thread_member(message_views(store.messages@), report_id, j as int);
                    assert(ids@[j as int] == thread[j as int].id);
                }
                let id = ids[j];
                let ghost before = out@;
                let rows = store.messages.len();
                proof {
                    assert(1 <= id <= rows);
                    assert(message_views(store.messages@)[id - 1] == store.messages@[id - 1]@);
                    assert(id_entries(store.message_index).contains_key(id));
                }
                match id_index_get(&store.message_index, id) {
                    Some(position) => {
                        out.push(store.messages[position as usize].clone());
                    },
                    None => {},
                }
                proof {
                    assert(message_views(out@) =~= message_views(before).push(thread[j as int]));
                    assert(thread.take(j + 1) =~= thread.take(j as int).push(thread[j as int]));
                }
                j += 1;
            }
            proof {
                assert(thread.take(j as int) =~= thread);
            }
        },
    }
    out
}

/// Stores a copy of the evidence file under the next id and returns the id.
/// The id that the file carries is ignored.
pub fn add_evidence_file(store: &mut Store, file: &EvidenceFile) -> (id: u64)
    requires
        old(store).wf(),
        old(store)@.next_evidence_id() <= u64::MAX,
    ensures
        final(store).wf(),
        id == old(store)@.next_evidence_id(),
        final(store)@ == old(store)@.with_new_evidence(file@),
{
    let position: u64 = store.evidence.len() as u64;
    let id: u64 = position + 1;
    let mut row = file.clone();
    row.id = id;
    store.evidence.push(row);
    id_index_insert(&mut store.evidence_index, id, position);
    proof {
        assert(final(store)@.evidence =~= old(store)@.with_new_evidence(file@).evidence);
        assert(final(store)@.users =~= old(store)@.users);
        assert(final(store)@.authorities =~= old(store)@.authorities);
    }
    id
}

/// The evidence file with the given id, if there is one.
pub fn get_evidence_file(store: &Store, id: u64) -> (r: Option<EvidenceFile>)
    requires
        store.wf(),
    ensures
        found_evidence(r) == store@.evidence_file(id),
{
    match id_index_get(&store.evidence_index, id) {
        Some(position) => {
            let rows = store.evidence.len();
            proof {
                assert(id_entries(store.evidence_index).contains_key(id));
                assert(position < rows);
            }
            Some(store.evidence[position as usize].clone())
        },
        None => None,
    }
}

/// Replacing the statistics leaves the records well formed.
pub proof fn lemma_stats_keep_records(s: StoreView, stats: AuthorityStats)
    requires
        s.well_formed(),
    ensures
        s.with_stats(stats).well_formed(),
{
}

/// A snapshot of the statistics record.
pub fn get_authority_stats(store: &Store) -> (r: AuthorityStats)
    ensures
        r == store@.stats,
{
    store.stats
}

/// Replaces the statistics record.
pub fn update_authority_stats(store: &mut Store, stats: AuthorityStats)
    ensures
        final(store)@ == old(store)@.with_stats(stats),
        old(store).wf() ==> final(store).wf(),
{
    store.stats = stats;
    proof {
        assert(final(store)@.users =~= old(store)@.users);
        assert(final(store)@.authorities =~= old(store)@.authorities);
        if old(store).wf() {
            lemma_stats_keep_records(old(store)@, stats);
        }
    }
}

/// The staking policy in force.
pub fn get_reward_config(store: &Store) -> (r: RewardConfig)
    ensures
        r == store@.config,
{
    store.config
}

/// Replaces the staking policy.
pub fn update_reward_config(store: &mut Store, config: RewardConfig)
    ensures
        final(store)@ == (StoreView { config, ..old(store)@ }),
        old(store).wf() ==> final(store).wf(),
{
    store.config = config;
    proof {
        assert(final(store)@.users =~= old(store)@.users);
        assert(final(store)@.authorities =~= old(store)@.authorities);
    }
}

/// How many reports are on record.
pub fn report_count(store: &Store) -> (r: u64)
    requires
        store.wf(),
    ensures
        r == store@.reports.len(),
{
    let rows = store.reports.len();
    proof {
        lemma_dense_count(id_entries(store.report_index), rows as nat);
    }
    id_index_len(&store.report_index)
}

/// How many messages are on record.
pub fn message_count(store: &Store) -> (r: u64)
    requires
        store.wf(),
    ensures
        r == store@.messages.len(),
{
    let rows = store.messages.len();
    proof {
        lemma_dense_count(id_entries(store.message_index), rows as nat);
    }
    id_index_len(&store.message_index)
}

/// How many evidence files are on record.
pub fn evidence_count(store: &Store) -> (r: u64)
    requires
        store.wf(),
    ensures
        r == store@.evidence.len(),
{
    let rows = store.evidence.len();
    proof {
        lemma_dense_count(id_entries(store.evidence_index), rows as nat);
    }
    id_index_len(&store.evidence_index)
}

/// Whether a transfer, should it go through, keeps the receiving balance
/// within `u64`: what `transfer_tokens` asks of its caller.
pub fn transfer_has_room(store: &Store, from: &Identity, to: &Identity, amount: u64) -> (r: bool)
    requires
        store.wf(),
    ensures
        r == (transfer_outcome(store@, from@, amount).is_ok() ==> transfer_fits(
            store@,
            from@,
            to@,
            amount,
        )),
{
    let source = match get_user(store, from) {
        Some(user) => user,
        None => {
            return true;
        },
    };
    if source.token_balance < amount {
        return true;
    }
    if *from == *to {
        proof {
            lemma_transfer_to_oneself(store@, from@, amount);
        }
        return true;
    }
    match get_user(store, to) {
        Some(target) => amount <= u64::MAX - target.token_balance,
        None => true,
    }
}

/// Every user on record, each once.
pub fn get_all_users(store: &Store) -> (r: Vec<User>)
    requires
        store.wf(),
    ensures
        lists_users(user_views(r@), store@.users),
{
    let mut out: Vec<User> = Vec::new();
    let mut i: usize = 0;
    while i < store.users.len()
        invariant
            i <= store.users.len(),
            user_views(out@) == user_views(store.users@).take(i as int),
        decreases store.users.len() - i,
    {
        let ghost before = out@;
        out.push(store.users[i].clone());
        proof {
            assert(user_views(out@) =~= user_views(before).push(store.users@[i as int]@));
            assert(user_views(store.users@).take(i + 1) =~= user_views(store.users@).take(
                i as int,
            ).push(store.users@[i as int]@));
        }
        i += 1;
    }
    proof {
        let listed = user_views(out@);
        assert(listed =~= user_views(store.users@));
        assert forall|k: Seq<u8>| #[trigger] store@.users.contains_key(k) implies exists|i: int|
            0 <= i < listed.len() && listed[i].id == k by {
            let at = index_entries(store.user_index)[k] as int;
            assert(listed[at].id == k);
        }
        assert forall|i: int, j: int| 0 <= i < j < listed.len() implies listed[i].id
            != listed[j].id by {
            assert(index_entries(store.user_index)[store.users@[i]@.id] == i);
            assert(index_entries(store.user_index)[store.users@[j]@.id] == j);
        }
        assert forall|i: int| 0 <= i < listed.len() implies store@.users.contains_key(
            (#[trigger] listed[i]).id,
        ) && store@.users[listed[i].id] == listed[i] by {
            assert(index_entries(store.user_index)[store.users@[i]@.id] == i);
        }
    }
    out
}

/// Every authority on record, each once.
pub fn get_all_authorities(store: &Store) -> (r: Vec<Authority>)
    requires
        store.wf(),
    ensures
        lists_authorities(authority_views(r@), store@.authorities),
{
    let mut out: Vec<Authority> = Vec::new();
    let mut i: usize = 0;
    while i < store.authorities.len()
        invariant
            i <= store.authorities.len(),
            authority_views(out@) == authority_views(store.authorities@).take(i as int),
        decreases store.authorities.len() - i,
    {
        let ghost before = out@;
        out.push(store.authorities[i].clone());
        proof {
            assert(authority_views(out@) =~= authority_views(before).push(
                store.authorities@[i as int]@,
            ));
            assert(authority_views(store.authorities@).take(i + 1) =~= authority_views(
                store.authorities@,
            ).take(i as int).push(store.authorities@[i as int]@));
        }
        i += 1;
    }
    proof {
        let listed = authority_views(out@);
        assert(listed =~= authority_views(store.authorities@));
        assert forall|k: Seq<u8>| #[trigger] store@.authorities.contains_key(k) implies exists|
            i: int,
        | 0 <= i < listed.len() && listed[i].id == k by {
            let at = index_entries(store.authority_index)[k] as int;
            assert(listed[at].id == k);
        }
        assert forall|i: int, j: int| 0 <= i < j < listed.len() implies listed[i].id
            != listed[j].id by {
            assert(index_entries(store.authority_index)[store.authorities@[i]@.id] == i);
            assert(index_entries(store.authority_index)[store.authorities@[j]@.id] == j);
        }
        assert forall|i: int| 0 <= i < listed.len() implies store@.authorities.contains_key(
            (#[trigger] listed[i]).id,
        ) && store@.authorities[listed[i].id] == listed[i] by {
            assert(index_entries(store.authority_index)[store.authorities@[i]@.id] == i);
        }
    }
    out
}

/// All messages, by id.
pub fn get_all_messages(store: &Store) -> (r: Vec<Message>)
    requires
        store.wf(),
    ensures
        message_views(r@) == store@.messages,
{
    let mut out: Vec<Message> = Vec::new();
    let mut i: usize = 0;
    while i < store.messages.len()
        invariant
            i <= store.messages.len(),
            message_views(out@) == message_views(store.messages@).take(i as int),
        decreases store.messages.len() - i,
    {
        let ghost before = out@;
        out.push(store.messages[i].clone());
        proof {
            assert(message_views(out@) =~= message_views(before).push(store.messages@[i as int]@));
            assert(message_views(store.messages@).take(i + 1) =~= message_views(
                store.messages@,
            ).take(i as int).push(store.messages@[i as int]@));
        }
        i += 1;
    }
    proof {
        assert(message_views(store.messages@).take(i as int) =~= message_views(store.messages@));
    }
    out
}

/// All evidence files, by id.
pub fn get_all_evidence_files(store: &Store) -> (r: Vec<EvidenceFile>)
    requires
        store.wf(),
    ensures
        evidence_views(r@) == store@.evidence,
{
    let mut out: Vec<EvidenceFile> = Vec::new();
    let mut i: usize = 0;
    while i < store.evidence.len()
        invariant
            i <= store.evidence.len(),
            evidence_views(out@) == evidence_views(store.evidence@).take(i as int),
        decreases store.evidence.len() - i,
    {
        let ghost before = out@;
        out.push(store.evidence[i].clone());
        proof {
            assert(evidence_views(out@) =~= evidence_views(before).push(
                store.evidence@[i as int]@,
            ));
            assert(evidence_views(store.evidence@).take(i + 1) =~= evidence_views(
                store.evidence@,
            ).take(i as int).push(store.evidence@[i as int]@));
        }
        i += 1;
    }
    proof {
        assert(evidence_views(store.evidence@).take(i as int) =~= evidence_views(
            store.evidence@,
        ));
    }
    out
}

} // verus!
