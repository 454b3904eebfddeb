//! Rendering a verdict as zero or one output line, by output mode.

use vstd::prelude::*;
use vstd::string::*;

use crate::trial::{Verdict, VerdictClass};

verus! {

/// The character for one decimal digit.
pub open spec fn spec_digit_char(d: nat) -> char {
    if d == 0 {
        '0'
    } else if d == 1 {
        '1'
    } else if d == 2 {
        '2'
    } else if d == 3 {
        '3'
    } else if d == 4 {
        '4'
    } else if d == 5 {
        '5'
    } else if d == 6 {
        '6'
    } else if d == 7 {
        '7'
    } else if d == 8 {
        '8'
    } else {
        '9'
    }
}

/// The decimal digits of `n`, most significant first, no leading zeros.
pub open spec fn spec_decimal(n: nat) -> Seq<char>
    decreases n,
{
    if n < 10 {
        seq![spec_digit_char(n)]
    } else {
        spec_decimal(n / 10).push(spec_digit_char(n % 10))
    }
}

fn digit_str(d: u8) -> (r: &'static str)
    requires
        d < 10,
    ensures
        r@ == seq![spec_digit_char(d as nat)],
{
    let r = match d {
        0 => "0",
        1 => "1",
        2 => "2",
        3 => "3",
        4 => "4",
        5 => "5",
        6 => "6",
        7 => "7",
        8 => "8",
        _ => "9",
    };
    proof {
        reveal_strlit("0");
        reveal_strlit("1");
        reveal_strlit("2");
        reveal_strlit("3");
        reveal_strlit("4");
        reveal_strlit("5");
        reveal_strlit("6");
        reveal_strlit("7");
        reveal_strlit("8");
        reveal_strlit("9");
        assert(r@ =~= seq![spec_digit_char(d as nat)]);
    }
    r
}

/// Render a count as decimal text.
pub fn u8_to_string(n: u8) -> (r: String)
    ensures
        r@ == spec_decimal(n as nat),
{
    let q1: u8 = n / 10;
    let r1: u8 = n % 10;
    if q1 == 0 {
        return String::from_str(digit_str(r1));
    }
    let q2: u8 = q1 / 10;
    let r2: u8 = q1 % 10;
    if q2 == 0 {
        let r = String::from_str(digit_str(r2)).concat(digit_str(r1));
        proof {
            assert(n as nat / 10 == q1 as nat);
            assert(n as nat % 10 == r1 as nat);
            assert(spec_decimal(n as nat) == spec_decimal(q1 as nat).push(
                spec_digit_char(r1 as nat),
            ));
            assert(r2 == q1);
            assert(r@ =~= spec_decimal(n as nat));
        }
        return r;
    }
    let r = String::from_str(digit_str(q2)).concat(digit_str(r2)).concat(digit_str(r1));
    proof {
        assert(spec_decimal(q1 as nat) == spec_decimal(q2 as nat).push(
            spec_digit_char(r2 as nat),
        ));
        assert(r@ =~= spec_decimal(n as nat));
    }
    r
}

/// The line the base table prints for a verdict, before any location suffix:
/// in quiet mode the bare URI on any success and nothing otherwise; in normal
/// mode `<uri>: Worked` on any success and nothing otherwise; in verbose mode
/// always a line naming the classification.
pub open spec fn spec_base_prints(success_count: u8, quiet: bool, verbose: bool) -> bool {
    if quiet {
        success_count > 0
    } else if verbose {
        true
    } else {
        success_count > 0
    }
}

/// The text of the base line, meaningful only when `spec_base_prints` holds.
pub open spec fn spec_base_line(
    uri: Seq<char>,
    success_count: u8,
    repeat_total: u8,
    quiet: bool,
    verbose: bool,
    class: VerdictClass,
) -> Seq<char> {
    if quiet {
        uri
    } else if verbose {
        if class is AllSucceeded {
            uri + ": Success"@
        } else if class is NeverSucceeded {
            uri + ": Not Worked"@
        } else {
            uri + ": "@ + spec_decimal(success_count as nat) + "/"@ + spec_decimal(
                repeat_total as nat,
            ) + " Worked"@
        }
    } else {
        uri + ": Worked"@
    }
}

/// The location suffix ` | <country>/<city>` is attached only outside quiet
/// mode, only when location mode is on, only on some success, and only when a
/// non-empty location was obtained.
pub open spec fn spec_attaches_location(
    success_count: u8,
    quiet: bool,
    location_mode: bool,
    loc: Option<Seq<char>>,
) -> bool {
    &&& !quiet
    &&& location_mode
    &&& success_count > 0
    &&& loc matches Some(l) && l.len() > 0
}

/// Render the line for one evaluated proxy URI, or nothing, following the
/// output-mode table. In quiet mode a URI with no successful trial never
/// produces a line.
pub fn render_line(
    uri: &String,
    verdict: &Verdict,
    quiet: bool,
    verbose: bool,
    location_mode: bool,
    loc: &Option<String>,
) -> (r: Option<String>)
    requires
        verdict.wf(),
    ensures
        r is Some <==> spec_base_prints(verdict.success_count, quiet, verbose),
        quiet && verdict.success_count == 0 ==> r is None,
        r matches Some(line) ==> {
            let base = spec_base_line(
                uri@,
                verdict.success_count,
                verdict.repeat_total,
                quiet,
                verbose,
                verdict.spec_class(),
            );
            if spec_attaches_location(
                verdict.success_count,
                quiet,
                location_mode,
                match loc {
                    Some(l) => Some(l@),
                    None => None,
                },
            ) {
                line@ == base + " | "@ + loc->0@
            } else {
                line@ == base
            }
        },
{
    let base: Option<String> = if quiet {
        if verdict.success_count > 0 {
            Some(uri.clone())
        } else {
            None
        }
    } else if verbose {
        match verdict.classification() {
            VerdictClass::AllSucceeded => Some(uri.clone().concat(": Success")),
            VerdictClass::NeverSucceeded => Some(uri.clone().concat(": Not Worked")),
            VerdictClass::PartialSuccess => {
                let counts = u8_to_string(verdict.success_count).concat("/").concat(
                    u8_to_string(verdict.repeat_total).as_str(),
                );
                Some(uri.clone().concat(": ").concat(counts.as_str()).concat(" Worked"))
            },
        }
    } else {
        if verdict.success_count > 0 {
            Some(uri.clone().concat(": Worked"))
        } else {
            None
        }
    };
    match base {
        None => None,
        Some(line) => {
            if !quiet && location_mode && verdict.success_count > 0 {
                match loc {
                    Some(l) => {
                        if l.as_str().unicode_len() > 0 {
                            Some(line.concat(" | ").concat(l.as_str()))
                        } else {
                            Some(line)
                        }
                    },
                    None => Some(line),
                }
            } else {
                Some(line)
            }
        },
    }
}

/// Whether one candidate's unit looks its location up: only when location
/// mode is on, output is not quiet, and at least one of the unit's evaluated
/// schemes achieved a success. At most one lookup is made per candidate.
pub fn unit_needs_geo(location_mode: bool, quiet: bool, verdicts: &Vec<Verdict>) -> (r: bool)
    ensures
        r == (location_mode && !quiet && exists|k: int|
            0 <= k < verdicts@.len() && (#[trigger] verdicts@[k]).success_count > 0),
{
    if !location_mode || quiet {
        return false;
    }
    let mut i: usize = 0;
    while i < verdicts.len()
        invariant
            location_mode,
            !quiet,
            0 <= i <= verdicts@.len(),
            forall|k: int| 0 <= k < i ==> !((#[trigger] verdicts@[k]).success_count > 0),
        decreases verdicts@.len() - i,
    {
        if verdicts[i].success_count > 0 {
            proof {
                assert(0 <= i < verdicts@.len() && verdicts@[i as int].success_count > 0);
            }
            return true;
        }
        i += 1;
    }
    false
}

} // verus!
