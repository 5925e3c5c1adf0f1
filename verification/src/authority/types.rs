//! The ledger's records and the mathematical view of each.

use crate::authority::identity::{copy_bytes, Identity};
use crate::authority::text::{decimal, decimal_text};
use vstd::prelude::*;
use vstd::string::StringExecFns;

verus! {

/// Where a report stands in its lifecycle. `UnderReview` is kept for forward
/// compatibility: no transition produces it.
#[derive(Clone, Copy, Debug, PartialEq, Eq, Structural)]
pub enum ReportStatus {
    Pending,
    UnderReview,
    Approved,
    Rejected,
}

impl ReportStatus {
    /// Approved and Rejected are terminal.
    pub open spec fn is_terminal(self) -> bool {
        self == ReportStatus::Approved || self == ReportStatus::Rejected
    }

    /// Pending and UnderReview hold the submitter's stake in escrow.
    pub open spec fn holds_stake(self) -> bool {
        self == ReportStatus::Pending || self == ReportStatus::UnderReview
    }
}

/// The view of an optional text.
pub open spec fn text_view(text: Option<String>) -> Option<Seq<char>> {
    match text {
        Some(s) => Some(s@),
        None => None,
    }
}

/// The view of optional bytes.
pub open spec fn bytes_view(bytes: Option<Vec<u8>>) -> Option<Seq<u8>> {
    match bytes {
        Some(b) => Some(b@),
        None => None,
    }
}

/// The view of an optional identity.
pub open spec fn identity_view(identity: Option<Identity>) -> Option<Seq<u8>> {
    match identity {
        Some(i) => Some(i@),
        None => None,
    }
}

/// A copy of an optional text.
pub fn copy_text(text: &Option<String>) -> (r: Option<String>)
    ensures
        text_view(r) == text_view(*text),
{
    match text {
        Some(s) => Some(s.clone()),
        None => None,
    }
}

/// A copy of a list of ids.
pub fn copy_ids(ids: &Vec<u64>) -> (r: Vec<u64>)
    ensures
        r@ == ids@,
{
    let mut out: Vec<u64> = Vec::new();
    let mut i: usize = 0;
    while i < ids.len()
        invariant
            i <= ids.len(),
            out@ == ids@.subrange(0, i as int),
        decreases ids.len() - i,
    {
        out.push(ids[i]);
        i += 1;
        proof {
            assert(out@ =~= ids@.subrange(0, i as int));
        }
    }
    proof {
        assert(ids@.subrange(0, ids.len() as int) =~= ids@);
    }
    out
}

/// Metadata and content of one evidence file.
#[derive(Debug, PartialEq, Eq)]
pub struct EvidenceFile {
    pub id: u64,
    pub name: String,
    pub file_type: String,
    pub data: Vec<u8>,
    pub upload_date: u64,
}

pub struct EvidenceFileView {
    pub id: u64,
    pub name: Seq<char>,
    pub file_type: Seq<char>,
    pub data: Seq<u8>,
    pub upload_date: u64,
}

impl View for EvidenceFile {
    type V = EvidenceFileView;

    open spec fn view(&self) -> EvidenceFileView {
        EvidenceFileView {
            id: self.id,
            name: self.name@,
            file_type: self.file_type@,
            data: self.data@,
            upload_date: self.upload_date,
        }
    }
}

impl Clone for EvidenceFile {
    fn clone(&self) -> (r: EvidenceFile)
        ensures
            r@ == self@,
    {
        EvidenceFile {
            id: self.id,
            name: self.name.clone(),
            file_type: self.file_type.clone(),
            data: copy_bytes(&self.data),
            upload_date: self.upload_date,
        }
    }
}

/// Where an incident took place. The coordinates are carried as the bit
/// patterns of IEEE 754 doubles; the ledger never computes with them.
#[derive(Debug, PartialEq, Eq)]
pub struct Location {
    pub address: Option<String>,
    pub latitude_bits: u64,
    pub longitude_bits: u64,
}

pub struct LocationView {
    pub address: Option<Seq<char>>,
    pub latitude_bits: u64,
    pub longitude_bits: u64,
}

impl View for Location {
    type V = LocationView;

    open spec fn view(&self) -> LocationView {
        LocationView {
            address: text_view(self.address),
            latitude_bits: self.latitude_bits,
            longitude_bits: self.longitude_bits,
        }
    }
}

impl Clone for Location {
    fn clone(&self) -> (r: Location)
        ensures
            r@ == self@,
    {
        Location {
            address: copy_text(&self.address),
            latitude_bits: self.latitude_bits,
            longitude_bits: self.longitude_bits,
        }
    }
}

/// The view of an optional location.
pub open spec fn location_view(location: Option<Location>) -> Option<LocationView> {
    match location {
        Some(l) => Some(l@),
        None => None,
    }
}

/// A report and the state of its stake.
#[derive(Debug, PartialEq, Eq)]
pub struct Report {
    pub id: u64,
    pub title: String,
    pub description: String,
    pub category: String,
    pub date_submitted: u64,
    pub incident_date: Option<String>,
    pub location: Option<Location>,
    pub submitter_id: Identity,
    pub evidence_count: u32,
    pub evidence_files: Vec<u64>,
    pub stake_amount: u64,
    pub reward_amount: u64,
    pub status: ReportStatus,
    pub reviewer: Option<Identity>,
    pub review_date: Option<u64>,
    pub review_notes: Option<String>,
}

pub struct ReportView {
    pub id: u64,
    pub title: Seq<char>,
    pub description: Seq<char>,
    pub category: Seq<char>,
    pub date_submitted: u64,
    pub incident_date: Option<Seq<char>>,
    pub location: Option<LocationView>,
    pub submitter_id: Seq<u8>,
    pub evidence_count: u32,
    pub evidence_files: Seq<u64>,
    pub stake_amount: u64,
    pub reward_amount: u64,
    pub status: ReportStatus,
    pub reviewer: Option<Seq<u8>>,
    pub review_date: Option<u64>,
    pub review_notes: Option<Seq<char>>,
}

impl View for Report {
    type V = ReportView;

    open spec fn view(&self) -> ReportView {
        ReportView {
            id: self.id,
            title: self.title@,
            description: self.description@,
            category: self.category@,
            date_submitted: self.date_submitted,
            incident_date: text_view(self.incident_date),
            location: location_view(self.location),
            submitter_id: self.submitter_id@,
            evidence_count: self.evidence_count,
            evidence_files: self.evidence_files@,
            stake_amount: self.stake_amount,
            reward_amount: self.reward_amount,
            status: self.status,
            reviewer: identity_view(self.reviewer),
            review_date: self.review_date,
            review_notes: text_view(self.review_notes),
        }
    }
}

impl Clone for Report {
    fn clone(&self) -> (r: Report)
        ensures
            r@ == self@,
    {
        Report {
            id: self.id,
            title: self.title.clone(),
            description: self.description.clone(),
            category: self.category.clone(),
            date_submitted: self.date_submitted,
            incident_date: copy_text(&self.incident_date),
            location: match &self.location {
                Some(l) => Some(l.clone()),
                None => None,
            },
            submitter_id: self.submitter_id.clone(),
            evidence_count: self.evidence_count,
            evidence_files: copy_ids(&self.evidence_files),
            stake_amount: self.stake_amount,
            reward_amount: self.reward_amount,
            status: self.status,
            reviewer: match &self.reviewer {
                Some(i) => Some(i.clone()),
                None => None,
            },
            review_date: self.review_date,
            review_notes: copy_text(&self.review_notes),
        }
    }
}

/// Who wrote a message.
#[derive(Debug, PartialEq, Eq)]
pub enum MessageSender {
    Authority(Identity),
    Reporter(Identity),
    System,
}

pub enum MessageSenderView {
    Authority(Seq<u8>),
    Reporter(Seq<u8>),
    System,
}

impl View for MessageSender {
    type V = MessageSenderView;

    open spec fn view(&self) -> MessageSenderView {
        match self {
            MessageSender::Authority(i) => MessageSenderView::Authority(i@),
            MessageSender::Reporter(i) => MessageSenderView::Reporter(i@),
            MessageSender::System => MessageSenderView::System,
        }
    }
}

impl Clone for MessageSender {
    fn clone(&self) -> (r: MessageSender)
        ensures
            r@ == self@,
    {
        match self {
            MessageSender::Authority(i) => MessageSender::Authority(i.clone()),
            MessageSender::Reporter(i) => MessageSender::Reporter(i.clone()),
            MessageSender::System => MessageSender::System,
        }
    }
}

/// One entry of the conversation attached to a report.
#[derive(Debug, PartialEq, Eq)]
pub struct Message {
    pub id: u64,
    pub report_id: u64,
    pub sender: MessageSender,
    pub content: String,
    pub timestamp: u64,
    pub attachment: Option<Vec<u8>>,
}

pub struct MessageView {
    pub id: u64,
    pub report_id: u64,
    pub sender: MessageSenderView,
    pub content: Seq<char>,
    pub timestamp: u64,
    pub attachment: Option<Seq<u8>>,
}

impl View for Message {
    type V = MessageView;

    open spec fn view(&self) -> MessageView {
        MessageView {
            id: self.id,
            report_id: self.report_id,
            sender: self.sender@,
            content: self.content@,
            timestamp: self.timestamp,
            attachment: bytes_view(self.attachment),
        }
    }
}

impl Clone for Message {
    fn clone(&self) -> (r: Message)
        ensures
            r@ == self@,
    {
        Message {
            id: self.id,
            report_id: self.report_id,
            sender: self.sender.clone(),
            content: self.content.clone(),
            timestamp: self.timestamp,
            attachment: match &self.attachment {
                Some(b) => Some(copy_bytes(b)),
                None => None,
            },
        }
    }
}

/// A submitter's account.
#[derive(Debug, PartialEq, Eq)]
pub struct User {
    pub id: Identity,
    pub token_balance: u64,
    pub reports_submitted: Vec<u64>,
    pub rewards_earned: u64,
    pub stakes_active: u64,
    pub stakes_lost: u64,
}

pub struct UserView {
    pub id: Seq<u8>,
    pub token_balance: u64,
    pub reports_submitted: Seq<u64>,
    pub rewards_earned: u64,
    pub stakes_active: u64,
    pub stakes_lost: u64,
}

impl View for User {
    type V = UserView;

    open spec fn view(&self) -> UserView {
        UserView {
            id: self.id@,
            token_balance: self.token_balance,
            reports_submitted: self.reports_submitted@,
            rewards_earned: self.rewards_earned,
            stakes_active: self.stakes_active,
            stakes_lost: self.stakes_lost,
        }
    }
}

impl Clone for User {
    fn clone(&self) -> (r: User)
        ensures
            r@ == self@,
    {
        User {
            id: self.id.clone(),
            token_balance: self.token_balance,
            reports_submitted: copy_ids(&self.reports_submitted),
            rewards_earned: self.rewards_earned,
            stakes_active: self.stakes_active,
            stakes_lost: self.stakes_lost,
        }
    }
}

impl User {
    /// An account with the given balance and no history.
    pub fn with_balance(id: Identity, token_balance: u64) -> (r: User)
        ensures
            r@ == fresh_user(id@, token_balance),
    {
        User {
            id,
            token_balance,
            reports_submitted: Vec::new(),
            rewards_earned: 0,
            stakes_active: 0,
            stakes_lost: 0,
        }
    }
}

/// The account of someone who has a balance and has done nothing yet.
pub open spec fn fresh_user(id: Seq<u8>, token_balance: u64) -> UserView {
    UserView {
        id,
        token_balance,
        reports_submitted: Seq::empty(),
        rewards_earned: 0,
        stakes_active: 0,
        stakes_lost: 0,
    }
}

/// An authority. The approval rate is carried as the bit pattern of an
/// IEEE 754 double; the ledger never computes with it.
#[derive(Debug, PartialEq, Eq)]
pub struct Authority {
    pub id: Identity,
    pub reports_reviewed: Vec<u64>,
    pub approval_rate_bits: u64,
}

pub struct AuthorityView {
    pub id: Seq<u8>,
    pub reports_reviewed: Seq<u64>,
    pub approval_rate_bits: u64,
}

impl View for Authority {
    type V = AuthorityView;

    open spec fn view(&self) -> AuthorityView {
        AuthorityView {
            id: self.id@,
            reports_reviewed: self.reports_reviewed@,
            approval_rate_bits: self.approval_rate_bits,
        }
    }
}

impl Clone for Authority {
    fn clone(&self) -> (r: Authority)
        ensures
            r@ == self@,
    {
        Authority {
            id: self.id.clone(),
            reports_reviewed: copy_ids(&self.reports_reviewed),
            approval_rate_bits: self.approval_rate_bits,
        }
    }
}

/// The record of an authority who has settled nothing yet.
pub open spec fn fresh_authority(id: Seq<u8>) -> AuthorityView {
    AuthorityView { id, reports_reviewed: Seq::empty(), approval_rate_bits: 0 }
}

/// The staking policy. The maximum is configuration only: no operation
/// enforces it.
#[derive(Clone, Copy, Debug, PartialEq, Eq, Structural)]
pub struct RewardConfig {
    pub reward_multiplier: u64,
    pub min_stake_amount: u64,
    pub max_stake_amount: u64,
}

/// Running totals for the authority dashboard.
#[derive(Clone, Copy, Debug, PartialEq, Eq, Structural)]
pub struct AuthorityStats {
    pub reports_pending: u64,
    pub reports_verified: u64,
    pub reports_rejected: u64,
    pub total_rewards_distributed: u64,
}

/// Which record an operation looked for and did not find.
#[derive(Clone, Copy, Debug, PartialEq, Eq, Structural)]
pub enum Missing {
    Report,
    Submitter,
    SourceUser,
}

/// Why an operation was refused. A refused operation changes nothing.
#[derive(Clone, Copy, Debug, PartialEq, Eq, Structural)]
pub enum LedgerError {
    /// The caller is the anonymous identity.
    Unauthenticated,
    /// The caller is not in the authority registry.
    NotAuthority,
    /// A record the operation needs does not exist.
    NotFound(Missing),
    /// The report is not pending; carries the status it is in.
    InvalidState(ReportStatus),
    /// The stake is below the minimum.
    InvalidStake,
    /// The balance does not cover the amount.
    InsufficientBalance,
    /// The caller does not own the report.
    Forbidden,
    /// The identity is already an authority.
    AlreadyAuthority,
}

/// The name of a status.
pub open spec fn status_name(status: ReportStatus) -> Seq<char> {
    match status {
        ReportStatus::Pending => "Pending"@,
        ReportStatus::UnderReview => "UnderReview"@,
        ReportStatus::Approved => "Approved"@,
        ReportStatus::Rejected => "Rejected"@,
    }
}

/// What an error says to the caller.
pub open spec fn error_text(error: LedgerError) -> Seq<char> {
    match error {
        LedgerError::Unauthenticated => "Anonymous callers are not allowed"@,
        LedgerError::NotAuthority => "Caller is not an authorized authority"@,
        LedgerError::NotFound(Missing::Report) => "Report not found"@,
        LedgerError::NotFound(Missing::Submitter) => "Report submitter not found"@,
        LedgerError::NotFound(Missing::SourceUser) => "Source user not found"@,
        LedgerError::InvalidState(status) => "Report is already in "@ + status_name(status)
            + " state"@,
        LedgerError::InvalidStake => "Stake amount is below the minimum"@,
        LedgerError::InsufficientBalance => "Insufficient token balance"@,
        LedgerError::Forbidden => "You can only send messages for your own reports"@,
        LedgerError::AlreadyAuthority => "Principal is already an authority"@,
    }
}

impl ReportStatus {
    /// The name of the status.
    pub fn name(&self) -> (r: &'static str)
        ensures
            r@ == status_name(*self),
    {
        match self {
            ReportStatus::Pending => "Pending",
            ReportStatus::UnderReview => "UnderReview",
            ReportStatus::Approved => "Approved",
            ReportStatus::Rejected => "Rejected",
        }
    }
}

impl LedgerError {
    /// What the error says to the caller.
    pub fn message(&self) -> (r: String)
        ensures
            r@ == error_text(*self),
    {
        match self {
            LedgerError::Unauthenticated => String::from_str("Anonymous callers are not allowed"),
            LedgerError::NotAuthority => String::from_str("Caller is not an authorized authority"),
            LedgerError::NotFound(Missing::Report) => String::from_str("Report not found"),
            LedgerError::NotFound(Missing::Submitter) => String::from_str(
                "Report submitter not found",
            ),
            LedgerError::NotFound(Missing::SourceUser) => String::from_str(
                "Source user not found",
            ),
            LedgerError::InvalidState(status) => {
                let mut text = String::from_str("Report is already in ");
                text.append(status.name());
                text.append(" state");
                text
            },
            LedgerError::InvalidStake => String::from_str("Stake amount is below the minimum"),
            LedgerError::InsufficientBalance => String::from_str("Insufficient token balance"),
            LedgerError::Forbidden => String::from_str(
                "You can only send messages for your own reports",
            ),
            LedgerError::AlreadyAuthority => String::from_str("Principal is already an authority"),
        }
    }
}

/// The operation that an error arose in, as far as its wording depends on
/// it.
#[derive(Clone, Copy, Debug, PartialEq, Eq, Structural)]
pub enum Operation {
    /// Filing a report under the given minimum stake.
    Submit { minimum_stake: u64 },
    /// A message of a reporter.
    ReporterMessage,
    /// Any other operation.
    Other,
}

/// What an error says to the caller of a given operation: filing a report
/// and a reporter's message have words of their own for some refusals, and
/// every other one reads as `error_text` has it.
pub open spec fn error_text_in(error: LedgerError, operation: Operation) -> Seq<char> {
    match operation {
        Operation::Submit { minimum_stake } => match error {
            LedgerError::Unauthenticated => "Anonymous callers cannot submit reports"@,
            LedgerError::InvalidStake => "Minimum stake amount is "@ + decimal(
                minimum_stake as nat,
            ) + " tokens"@,
            LedgerError::InsufficientBalance => "Insufficient token balance for staking"@,
            _ => error_text(error),
        },
        Operation::ReporterMessage => match error {
            LedgerError::Unauthenticated => "Anonymous callers cannot send messages"@,
            _ => error_text(error),
        },
        Operation::Other => error_text(error),
    }
}

impl LedgerError {
    /// What the error says to the caller of the given operation.
    pub fn message_in(&self, operation: Operation) -> (r: String)
        ensures
            r@ == error_text_in(*self, operation),
    {
        match operation {
            Operation::Submit { minimum_stake } => match self {
                LedgerError::Unauthenticated => String::from_str(
                    "Anonymous callers cannot submit reports",
                ),
                LedgerError::InvalidStake => {
                    let mut text = String::from_str("Minimum stake amount is ");
                    let number = decimal_text(minimum_stake);
                    text.append(number.as_str());
                    text.append(" tokens");
                    text
                },
                LedgerError::InsufficientBalance => String::from_str(
                    "Insufficient token balance for staking",
                ),
                _ => self.message(),
            },
            Operation::ReporterMessage => match self {
                LedgerError::Unauthenticated => String::from_str(
                    "Anonymous callers cannot send messages",
                ),
                _ => self.message(),
            },
            Operation::Other => self.message(),
        }
    }
}

} // verus!
