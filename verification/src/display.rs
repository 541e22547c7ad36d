//! Textual rendering of numbers, rates and durations.
//!
//! Every rendering function is specified exactly: the returned string is the
//! decimal spelling given by the spec functions below. Durations pick an
//! adaptive unit (seconds, milliseconds, microseconds) by magnitude and show
//! two decimal places, truncated; rates are shown in percent with one decimal
//! place, truncated.
use crate::duration::PingDuration;
use vstd::prelude::*;

verus! {

/// The decimal digit character for `d` (digits ten and above render as '9';
/// every use keeps `d` below ten).
pub open spec fn digit_char(d: nat) -> char {
    if d == 0 {
        '0'
    } else if d == 1 {
        '1'
    } else if d == 2 {
        '2'
    } else if d == 3 {
        '3'
    } else if d == 4 {
        '4'
    } else if d == 5 {
        '5'
    } else if d == 6 {
        '6'
    } else if d == 7 {
        '7'
    } else if d == 8 {
        '8'
    } else {
        '9'
    }
}

/// The decimal spelling of `n`, most significant digit first, no leading
/// zeros (a single '0' for zero itself).
pub open spec fn spec_digits(n: nat) -> Seq<char>
    decreases n,
{
    if n < 10 {
        seq![digit_char(n)]
    } else {
        spec_digits(n / 10).push(digit_char(n % 10))
    }
}

/// `m` measured in `unit`, with two decimal places, truncated:
/// the whole part followed by '.' and the first two fractional digits.
pub open spec fn spec_fixed2(m: nat, unit: nat) -> Seq<char> {
    spec_digits(m / unit) + seq![
        '.',
        digit_char((m % unit) * 100 / unit / 10),
        digit_char((m % unit) * 100 / unit % 10),
    ]
}

/// A duration of `micros` microseconds rendered with an adaptive unit:
/// seconds from one second up, else milliseconds from one millisecond up,
/// else microseconds, with "0.00 ns" for a zero duration.
pub open spec fn spec_duration_display(micros: nat) -> Seq<char> {
    if micros >= 1000000 {
        spec_fixed2(micros, 1000000) + seq![' ', 's']
    } else if micros >= 1000 {
        spec_fixed2(micros, 1000) + seq![' ', 'm', 's']
    } else if micros >= 1 {
        spec_fixed2(micros, 1) + seq![' ', 'u', 's']
    } else {
        seq!['0', '.', '0', '0', ' ', 'n', 's']
    }
}

/// A rate given in tenths of a percent, rendered as percent with one decimal
/// place and a trailing '%'.
pub open spec fn spec_permille_percent(p: nat) -> Seq<char> {
    spec_digits(p / 10) + seq!['.', digit_char(p % 10), '%']
}

/// The single-character string for the decimal digit `d`.
fn digit_str(d: u64) -> (s: &'static str)
    requires
        d < 10,
    ensures
        s@ == seq![digit_char(d as nat)],
{
    proof {
        reveal_strlit("0");
        reveal_strlit("1");
        reveal_strlit("2");
        reveal_strlit("3");
        reveal_strlit("4");
        reveal_strlit("5");
        reveal_strlit("6");
        reveal_strlit("7");
        reveal_strlit("8");
        reveal_strlit("9");
    }
    if d == 0 {
        proof {
            assert("0"@ =~= seq![digit_char(0)]);
        }
        "0"
    } else if d == 1 {
        proof {
            assert("1"@ =~= seq![digit_char(1)]);
        }
        "1"
    } else if d == 2 {
        proof {
            assert("2"@ =~= seq![digit_char(2)]);
        }
        "2"
    } else if d == 3 {
        proof {
            assert("3"@ =~= seq![digit_char(3)]);
        }
        "3"
    } else if d == 4 {
        proof {
            assert("4"@ =~= seq![digit_char(4)]);
        }
        "4"
    } else if d == 5 {
        proof {
            assert("5"@ =~= seq![digit_char(5)]);
        }
        "5"
    } else if d == 6 {
        proof {
            assert("6"@ =~= seq![digit_char(6)]);
        }
        "6"
    } else if d == 7 {
        proof {
            assert("7"@ =~= seq![digit_char(7)]);
        }
        "7"
    } else if d == 8 {
        proof {
            assert("8"@ =~= seq![digit_char(8)]);
        }
        "8"
    } else {
        proof {
            assert("9"@ =~= seq![digit_char(9)]);
        }
        "9"
    }
}

/// The decimal spelling of `n`.
pub fn u64_to_string(n: u64) -> (s: String)
    ensures
        s@ == spec_digits(n as nat),
    decreases n,
{
    if n < 10 {
        String::from_str(digit_str(n))
    } else {
        let mut s = u64_to_string(n / 10);
        s.append(digit_str(n % 10));
        proof {
            assert(s@ =~= spec_digits(n as nat));
        }
        s
    }
}

/// `m` measured in `unit`, with two decimal places, truncated.
fn fixed2(m: u64, unit: u64) -> (s: String)
    requires
        1 <= unit <= 1000000,
    ensures
        s@ == spec_fixed2(m as nat, unit as nat),
{
    let whole = m / unit;
    let frac = (m % unit) * 100 / unit;
    assert(frac < 100) by {
        let u = unit as int;
        let r = (m % unit) as int;
        assert(r * 100 < u * 100);
        vstd::arithmetic::div_mod::lemma_multiply_divide_lt(r * 100, u, 100);
    }
    let mut s = u64_to_string(whole);
    proof {
        reveal_strlit(".");
    }
    s.append(".");
    s.append(digit_str(frac / 10));
    s.append(digit_str(frac % 10));
    proof {
        assert(s@ =~= spec_fixed2(m as nat, unit as nat));
    }
    s
}

/// A rate in tenths of a percent rendered as "<whole>.<tenth>%".
pub fn permille_percent_string(p: u32) -> (s: String)
    ensures
        s@ == spec_permille_percent(p as nat),
{
    let mut s = u64_to_string((p / 10) as u64);
    proof {
        reveal_strlit(".");
        reveal_strlit("%");
    }
    s.append(".");
    s.append(digit_str((p % 10) as u64));
    s.append("%");
    proof {
        assert(s@ =~= spec_permille_percent(p as nat));
    }
    s
}

/// Renders a value as a human-readable string.
pub trait DurationExt {
    fn display(&self) -> (s: String);
}

impl DurationExt for PingDuration {
    /// The duration with an adaptive unit and two decimal places.
    fn display(&self) -> (s: String)
        ensures
            s@ == spec_duration_display(self.micros as nat),
    {
        if self.micros >= 1000000 {
            let mut s = fixed2(self.micros, 1000000);
            proof {
                reveal_strlit(" s");
            }
            s.append(" s");
            proof {
                assert(s@ =~= spec_duration_display(self.micros as nat));
            }
            s
        } else if self.micros >= 1000 {
            let mut s = fixed2(self.micros, 1000);
            proof {
                reveal_strlit(" ms");
            }
            s.append(" ms");
            proof {
                assert(s@ =~= spec_duration_display(self.micros as nat));
            }
            s
        } else if self.micros >= 1 {
            let mut s = fixed2(self.micros, 1);
            proof {
                reveal_strlit(" us");
            }
            s.append(" us");
            proof {
                assert(s@ =~= spec_duration_display(self.micros as nat));
            }
            s
        } else {
            proof {
                reveal_strlit("0.00 ns");
            }
            let s = String::from_str("0.00 ns");
            proof {
                assert(s@ =~= spec_duration_display(self.micros as nat));
            }
            s
        }
    }
}

} // verus!
