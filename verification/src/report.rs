//! Diagnostic reports for unsatisfied expectations.
//!
//! Verification emits one line per unsatisfied expected behaviour.  The line
//! carries the qualified name of the mocked method, the number of matching
//! invocations recorded, and the textual description of the behaviour's
//! declaration.  The text of the line is rendered by verified code; only the
//! write to the standard error stream is trusted.

use std::io::Write;
use vstd::prelude::*;
use vstd::string::StringExecFns;

verus! {

/// The decimal digit character for `d`, for `d < 10`.
pub open spec fn digit_char(d: nat) -> char {
    if d == 0 {
        '0'
    } else if d == 1 {
        '1'
    } else if d == 2 {
        '2'
    } else if d == 3 {
        '3'
    } else if d == 4 {
        '4'
    } else if d == 5 {
        '5'
    } else if d == 6 {
        '6'
    } else if d == 7 {
        '7'
    } else if d == 8 {
        '8'
    } else {
        '9'
    }
}

/// The decimal rendering of `n`, most significant digit first, without
/// leading zeroes (a single `'0'` for zero).
pub open spec fn decimal_of(n: nat) -> Seq<char>
    decreases n,
{
    if n < 10 {
        seq![digit_char(n)]
    } else {
        decimal_of(n / 10).push(digit_char(n % 10))
    }
}

/// The diagnostic line reported for one unsatisfied expectation registered
/// under the key `(tr, m)`, with `count` recorded matches and declaration
/// text `desc`.
pub open spec fn unsatisfied_message(tr: Seq<char>, m: Seq<char>, count: nat, desc: Seq<char>) -> Seq<
    char,
> {
    "Behaviour unsatisfied for "@ + tr + "::"@ + m + " with "@ + decimal_of(count)
        + " matching invocations: "@ + desc
}

/// Returns the one-character string of the decimal digit `d`.
fn digit_string(d: usize) -> (s: String)
    requires
        d < 10,
    ensures
        s@ == seq![digit_char(d as nat)],
{
    proof {
        reveal_strlit("0");
        reveal_strlit("1");
        reveal_strlit("2");
        reveal_strlit("3");
        reveal_strlit("4");
        reveal_strlit("5");
        reveal_strlit("6");
        reveal_strlit("7");
        reveal_strlit("8");
        reveal_strlit("9");
    }
    let s = match d {
        0 => "0",
        1 => "1",
        2 => "2",
        3 => "3",
        4 => "4",
        5 => "5",
        6 => "6",
        7 => "7",
        8 => "8",
        _ => "9",
    };
    proof {
        assert(s@ =~= seq![digit_char(d as nat)]);
    }
    s.to_owned()
}

/// Returns the decimal rendering of `n`.
pub fn decimal_string(n: usize) -> (s: String)
    ensures
        s@ == decimal_of(n as nat),
    decreases n,
{
    if n < 10 {
        digit_string(n)
    } else {
        let mut s = decimal_string(n / 10);
        let d = digit_string(n % 10);
        s.append(d.as_str());
        proof {
            assert(s@ =~= decimal_of(n as nat));
        }
        s
    }
}

/// Renders the diagnostic line for one unsatisfied expectation.
pub fn unsatisfied_report(requested_trait: &str, method: &str, count: usize, desc: &str) -> (s:
    String)
    ensures
        s@ == unsatisfied_message(requested_trait@, method@, count as nat, desc@),
{
    let mut s = "Behaviour unsatisfied for ".to_owned();
    s.append(requested_trait);
    s.append("::");
    s.append(method);
    s.append(" with ");
    let d = decimal_string(count);
    s.append(d.as_str());
    s.append(" matching invocations: ");
    s.append(desc);
    proof {
        assert(s@ =~= unsatisfied_message(requested_trait@, method@, count as nat, desc@));
    }
    s
}

/// Relies on std's standard error stream: writes the line to it, followed by
/// a newline.
#[verifier::external_body]
pub fn emit_diagnostic_line(line: &str) {
    let _ = writeln!(std::io::stderr(), "{}", line);
}

} // verus!
