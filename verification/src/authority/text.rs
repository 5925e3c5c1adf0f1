//! The wording of the system notices.

use vstd::prelude::*;
use vstd::string::StringExecFns;

verus! {

/// The character of a decimal digit.
pub open spec fn digit_char(d: nat) -> char {
    if d == 0 {
        '0'
    } else if d == 1 {
        '1'
    } else if d == 2 {
        '2'
    } else if d == 3 {
        '3'
    } else if d == 4 {
        '4'
    } else if d == 5 {
        '5'
    } else if d == 6 {
        '6'
    } else if d == 7 {
        '7'
    } else if d == 8 {
        '8'
    } else {
        '9'
    }
}

/// A number written in decimal, without leading zeros.
pub open spec fn decimal(n: nat) -> Seq<char>
    decreases n,
{
    if n < 10 {
        seq![digit_char(n)]
    } else {
        decimal(n / 10).push(digit_char(n % 10))
    }
}

/// What the thread of a new report opens with.
pub open spec fn submitted_notice(stake: u64) -> Seq<char> {
    "Report submitted with a stake of "@ + decimal(stake as nat) + " tokens"@
}

/// What the thread says when a report is verified.
pub open spec fn verified_notice(reward: u64) -> Seq<char> {
    "This report has been verified. "@ + decimal(reward as nat)
        + " tokens have been awarded as a reward."@
}

/// What the thread says when a report is rejected.
pub open spec fn rejected_notice(stake: u64) -> Seq<char> {
    "This report has been rejected. The staked "@ + decimal(stake as nat)
        + " tokens have been lost."@
}

fn digit_text(d: u64) -> (s: &'static str)
    requires
        d < 10,
    ensures
        s@ == seq![digit_char(d as nat)],
{
    proof {
        reveal_strlit("0");
        reveal_strlit("1");
        reveal_strlit("2");
        reveal_strlit("3");
        reveal_strlit("4");
        reveal_strlit("5");
        reveal_strlit("6");
        reveal_strlit("7");
        reveal_strlit("8");
        reveal_strlit("9");
    }
    let s = if d == 0 {
        "0"
    } else if d == 1 {
        "1"
    } else if d == 2 {
        "2"
    } else if d == 3 {
        "3"
    } else if d == 4 {
        "4"
    } else if d == 5 {
        "5"
    } else if d == 6 {
        "6"
    } else if d == 7 {
        "7"
    } else if d == 8 {
        "8"
    } else {
        "9"
    };
    proof {
        assert(s@ =~= seq![digit_char(d as nat)]);
    }
    s
}

/// Writes a number in decimal.
pub fn decimal_text(n: u64) -> (s: String)
    ensures
        s@ == decimal(n as nat),
    decreases n,
{
    if n < 10 {
        String::from_str(digit_text(n))
    } else {
        let mut s = decimal_text(n / 10);
        s.append(digit_text(n % 10));
        proof {
            assert(s@ =~= decimal(n as nat));
        }
        s
    }
}

/// The notice for a submitted report.
pub fn submitted_text(stake: u64) -> (s: String)
    ensures
        s@ == submitted_notice(stake),
{
    let mut s = String::from_str("Report submitted with a stake of ");
    let number = decimal_text(stake);
    s.append(number.as_str());
    s.append(" tokens");
    s
}

/// The notice for a verified report.
pub fn verified_text(reward: u64) -> (s: String)
    ensures
        s@ == verified_notice(reward),
{
    let mut s = String::from_str("This report has been verified. ");
    let number = decimal_text(reward);
    s.append(number.as_str());
    s.append(" tokens have been awarded as a reward.");
    s
}

/// The notice for a rejected report.
pub fn rejected_text(stake: u64) -> (s: String)
    ensures
        s@ == rejected_notice(stake),
{
    let mut s = String::from_str("This report has been rejected. The staked ");
    let number = decimal_text(stake);
    s.append(number.as_str());
    s.append(" tokens have been lost.");
    s
}

} // verus!
