//! The final summary line: `<N> repos found, <M> changes`, built from the
//! repository count and the total change count with a verified decimal
//! rendering.

use vstd::prelude::*;

verus! {

/// The decimal digit character for one value below ten.
pub open spec fn spec_digit(d: nat) -> char {
    if d == 0 {
        '0'
    } else if d == 1 {
        '1'
    } else if d == 2 {
        '2'
    } else if d == 3 {
        '3'
    } else if d == 4 {
        '4'
    } else if d == 5 {
        '5'
    } else if d == 6 {
        '6'
    } else if d == 7 {
        '7'
    } else if d == 8 {
        '8'
    } else {
        '9'
    }
}

/// The decimal rendering of a number: most significant digit first, no
/// leading zero except for the number zero itself.
pub open spec fn spec_dec(n: nat) -> Seq<char>
    decreases n,
{
    if n < 10 {
        seq![spec_digit(n)]
    } else {
        spec_dec(n / 10).push(spec_digit(n % 10))
    }
}

/// The summary line for a scan that opened `repos` repositories and counted
/// `changes` changed paths.
pub open spec fn spec_summary(repos: nat, changes: nat) -> Seq<char> {
    spec_dec(repos) + " repos found, "@ + spec_dec(changes) + " changes"@
}

fn digit_str(d: u64) -> (r: &'static str)
    requires
        d < 10,
    ensures
        r@ =~= seq![spec_digit(d as nat)],
{
    proof {
        reveal_strlit("0");
        reveal_strlit("1");
        reveal_strlit("2");
        reveal_strlit("3");
        reveal_strlit("4");
        reveal_strlit("5");
        reveal_strlit("6");
        reveal_strlit("7");
        reveal_strlit("8");
        reveal_strlit("9");
    }
    match d {
        0 => "0",
        1 => "1",
        2 => "2",
        3 => "3",
        4 => "4",
        5 => "5",
        6 => "6",
        7 => "7",
        8 => "8",
        _ => "9",
    }
}

/// Renders a number in decimal, most significant digit first.
pub fn u64_to_dec(n: u64) -> (s: String)
    ensures
        s@ == spec_dec(n as nat),
    decreases n,
{
    if n < 10 {
        String::from_str(digit_str(n))
    } else {
        let mut s = u64_to_dec(n / 10);
        s.append(digit_str(n % 10));
        proof {
            assert(s@ =~= spec_dec(n as nat));
        }
        s
    }
}

/// Builds the summary line `<repos> repos found, <changes> changes`.
pub fn summary_line(repos: u64, changes: u64) -> (line: String)
    ensures
        line@ == spec_summary(repos as nat, changes as nat),
{
    let mut line = u64_to_dec(repos);
    line.append(" repos found, ");
    let mid = u64_to_dec(changes);
    line.append(mid.as_str());
    line.append(" changes");
    proof {
        assert(line@ =~= spec_summary(repos as nat, changes as nat));
    }
    line
}

} // verus!
