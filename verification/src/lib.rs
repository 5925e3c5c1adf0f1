//! An incentive-aligned reporting ledger: submitters stake tokens on reports,
//! authorities verify or reject them, and every settlement moves balances,
//! stakes and statistics together.

pub mod authority;
