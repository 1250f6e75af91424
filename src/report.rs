//! The summary printed once after a walk.

use vstd::prelude::*;
use crate::color::{paint, Colorize};
use crate::plan::{Tally, WalkCounts};

verus! {

/// The decimal digit for `d`.
pub open spec fn digit_char(d: nat) -> char {
    if d == 0 { '0' } else if d == 1 { '1' } else if d == 2 { '2' } else if d == 3 { '3' }
    else if d == 4 { '4' } else if d == 5 { '5' } else if d == 6 { '6' } else if d == 7 { '7' }
    else if d == 8 { '8' } else { '9' }
}

/// `n` written in decimal, without leading zeros.
pub open spec fn decimal(n: nat) -> Seq<char>
    decreases n,
{
    if n < 10 {
        seq![digit_char(n)]
    } else {
        decimal(n / 10) + seq![digit_char(n % 10)]
    }
}

/// The summary line for counters `t`; `dry_run` selects the word for the
/// planned count and `on` turns colour on.
pub open spec fn summary_text(t: Tally, dry_run: bool, on: bool) -> Seq<char> {
    "Summary: "@ + paint(on, "\x1b[32m"@, decimal(t.planned)) + " "@ + (if dry_run {
        "planned"@
    } else {
        "linked"@
    }) + ", "@ + paint(on, "\x1b[31m"@, decimal(t.conflicts)) + " "@ + (if t.conflicts == 1 {
        "conflict"@
    } else {
        "conflicts"@
    }) + ", "@ + paint(on, "\x1b[34m"@, decimal(t.skips)) + " skipped by lua, "@ + paint(
        on,
        "\x1b[32m"@,
        decimal(t.overrides),
    ) + " overrides"@
}

fn digit_text(d: usize) -> (r: &'static str)
    requires
        d < 10,
    ensures
        r@ == seq![digit_char(d as nat)],
{
    proof {
        reveal_strlit("0");
        reveal_strlit("1");
        reveal_strlit("2");
        reveal_strlit("3");
        reveal_strlit("4");
        reveal_strlit("5");
        reveal_strlit("6");
        reveal_strlit("7");
        reveal_strlit("8");
        reveal_strlit("9");
    }
    let r = if d == 0 { "0" } else if d == 1 { "1" } else if d == 2 { "2" } else if d == 3 { "3" }
    else if d == 4 { "4" } else if d == 5 { "5" } else if d == 6 { "6" } else if d == 7 { "7" }
    else if d == 8 { "8" } else { "9" };
    assert(r@ =~= seq![digit_char(d as nat)]);
    r
}

/// `n` written in decimal.
pub fn decimal_text(n: usize) -> (r: String)
    ensures
        r@ == decimal(n as nat),
    decreases n,
{
    if n < 10 {
        String::from_str(digit_text(n))
    } else {
        let mut r = decimal_text(n / 10);
        r.append(digit_text(n % 10));
        r
    }
}

/// The summary of a walk's counters.
pub fn summary_line(c: &WalkCounts, dry_run: bool, color: Colorize) -> (r: String)
    ensures
        r@ == summary_text(c@, dry_run, color.0),
{
    let mut r = String::from_str("Summary: ");
    r.append(color.green(decimal_text(c.planned).as_str()).as_str());
    r.append(" ");
    r.append(if dry_run { "planned" } else { "linked" });
    r.append(", ");
    r.append(color.red(decimal_text(c.conflicts).as_str()).as_str());
    r.append(" ");
    r.append(if c.conflicts == 1 { "conflict" } else { "conflicts" });
    r.append(", ");
    r.append(color.blue(decimal_text(c.skips).as_str()).as_str());
    r.append(" skipped by lua, ");
    r.append(color.green(decimal_text(c.overrides).as_str()).as_str());
    r.append(" overrides");
    r
}

} // verus!
